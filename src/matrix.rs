use vstd::prelude::*;

use crate::error::RegressionError;

verus! {

/// A dense matrix stored as a vector of rows.
#[derive(Debug)]
pub struct Matrix<T> {
    pub nrows: usize,
    pub ncols: usize,
    pub rows: Vec<Vec<T>>,
}

impl<T> View for Matrix<T> {
    type V = Seq<Seq<T>>;

    /// The rows as sequences.
    open spec fn view(&self) -> Seq<Seq<T>> {
        self.rows@.map_values(|r: Vec<T>| r@)
    }
}

/// Column `j` of the rows `m`.
pub open spec fn column_of<T>(m: Seq<Seq<T>>, j: int) -> Seq<T> {
    Seq::new(m.len(), |i: int| m[i][j])
}

/// The transpose of the rows `m`, which have `ncols` entries each.
pub open spec fn transpose_of<T>(m: Seq<Seq<T>>, ncols: nat) -> Seq<Seq<T>> {
    Seq::new(ncols, |j: int| column_of(m, j))
}

/// The rows `m` without column `c`; each row has `ncols` entries before.
pub open spec fn without_column<T>(m: Seq<Seq<T>>, c: int, ncols: nat) -> Seq<Seq<T>> {
    Seq::new(
        m.len(),
        |i: int|
            Seq::new(
                (ncols - 1) as nat,
                |k: int|
                    m[i][if k < c {
                        k
                    } else {
                        k + 1
                    }],
            ),
    )
}

/// Every row of `rows` has `ncols` entries.
pub open spec fn rows_have_len<T>(rows: Seq<Vec<T>>, ncols: nat) -> bool {
    forall|i: int| 0 <= i < rows.len() ==> (#[trigger] rows[i])@.len() == ncols
}

impl<T: Copy> Matrix<T> {
    /// The shape fields agree with the stored rows.
    pub open spec fn wf(&self) -> bool {
        self.rows@.len() == self.nrows && rows_have_len(self.rows@, self.ncols as nat)
    }

    pub open spec fn entry(&self, i: int, j: int) -> T {
        self.rows@[i]@[j]
    }

    /// Row `i` of the view is row `i` of the stored rows.
    pub proof fn lemma_view_rows(&self)
        ensures
            self@.len() == self.rows@.len(),
            forall|i: int| 0 <= i < self.rows@.len() ==> #[trigger] self@[i] == self.rows@[i]@,
    {
    }

    /// Builds a matrix with `ncols` columns from its rows; fails when a row
    /// has another length.
    pub fn from_rows(ncols: usize, rows: Vec<Vec<T>>) -> (r: Result<Matrix<T>, RegressionError>)
        ensures
            r is Ok <==> rows_have_len(rows@, ncols as nat),
            r is Ok ==> r->Ok_0.wf() && r->Ok_0.ncols == ncols && r->Ok_0.rows@ == rows@,
            r is Err ==> exists|i: int|
                0 <= i < rows@.len() && r->Err_0 == (RegressionError::InvalidDimension {
                    expected: ncols,
                    found: (#[trigger] rows@[i])@.len() as usize,
                }),
    {
        let mut i: usize = 0;
        while i < rows.len()
            invariant
                i <= rows@.len(),
                forall|k: int| 0 <= k < i ==> (#[trigger] rows@[k])@.len() == ncols,
            decreases rows@.len() - i,
        {
            if rows[i].len() != ncols {
                return Err(RegressionError::InvalidDimension { expected: ncols, found: rows[i].len() });
            }
            i = i + 1;
        }
        Ok(Matrix { nrows: rows.len(), ncols, rows })
    }

    pub fn get(&self, i: usize, j: usize) -> (r: T)
        requires
            self.wf(),
            i < self.nrows,
            j < self.ncols,
        ensures
            r == self.entry(i as int, j as int),
    {
        self.rows[i][j]
    }

    /// Column `j` as a vector.
    pub fn column(&self, j: usize) -> (r: Vec<T>)
        requires
            self.wf(),
            j < self.ncols,
        ensures
            r@.len() == self.nrows,
            forall|i: int| 0 <= i < self.nrows ==> r@[i] == self.entry(i, j as int),
            r@ == column_of(self@, j as int),
    {
        let mut out: Vec<T> = Vec::new();
        let mut i: usize = 0;
        while i < self.nrows
            invariant
                self.wf(),
                j < self.ncols,
                i <= self.nrows,
                out@.len() == i,
                forall|k: int| 0 <= k < i ==> out@[k] == self.entry(k, j as int),
            decreases self.nrows - i,
        {
            out.push(self.rows[i][j]);
            i = i + 1;
        }
        proof {
            self.lemma_view_rows();
            assert forall|k: int| 0 <= k < self.nrows implies out@[k] == column_of(self@, j as int)[k] by {
                assert(self@[k] == self.rows@[k]@);
                assert(out@[k] == self.entry(k, j as int));
                assert(self@[k][j as int] == self.entry(k, j as int));
                assert(column_of(self@, j as int)[k] == self@[k][j as int]);
            }
        }
        assert(out@ =~= column_of(self@, j as int));
        out
    }

    /// The matrix without column `j`; the later columns move one place left.
    pub fn remove_column(&self, j: usize) -> (r: Matrix<T>)
        requires
            self.wf(),
            j < self.ncols,
        ensures
            r.wf(),
            r.nrows == self.nrows,
            r.ncols == self.ncols - 1,
            forall|i: int, c: int|
                0 <= i < r.nrows && 0 <= c < r.ncols ==> #[trigger] r.entry(i, c) == self.entry(
                    i,
                    if c < j {
                        c
                    } else {
                        c + 1
                    },
                ),
            r@ == without_column(self@, j as int, self.ncols as nat),
    {
        let mut out: Vec<Vec<T>> = Vec::new();
        let mut i: usize = 0;
        while i < self.nrows
            invariant
                self.wf(),
                j < self.ncols,
                i <= self.nrows,
                out@.len() == i,
                rows_have_len(out@, (self.ncols - 1) as nat),
                forall|k: int, c: int|
                    0 <= k < i && 0 <= c < self.ncols - 1 ==> #[trigger] out@[k]@[c]
                        == self.entry(
                        k,
                        if c < j {
                            c
                        } else {
                            c + 1
                        },
                    ),
            decreases self.nrows - i,
        {
            let row = &self.rows[i];
            let mut new_row: Vec<T> = Vec::new();
            let mut c: usize = 0;
            while c < self.ncols
                invariant
                    self.wf(),
                    i < self.nrows,
                    j < self.ncols,
                    row@ == self.rows@[i as int]@,
                    c <= self.ncols,
                    new_row@.len() == if c <= j {
                        c as int
                    } else {
                        c - 1
                    },
                    forall|d: int|
                        0 <= d < new_row@.len() ==> #[trigger] new_row@[d] == self.entry(
                            i as int,
                            if d < j {
                                d
                            } else {
                                d + 1
                            },
                        ),
                decreases self.ncols - c,
            {
                if c != j {
                    new_row.push(row[c]);
                }
                c = c + 1;
            }
            out.push(new_row);
            i = i + 1;
        }
        let r = Matrix { nrows: self.nrows, ncols: self.ncols - 1, rows: out };
        proof {
            self.lemma_view_rows();
            r.lemma_view_rows();
            let target = without_column(self@, j as int, self.ncols as nat);
            assert forall|k: int| 0 <= k < self.nrows implies r@[k] =~= target[k] by {
                assert(r@[k] == r.rows@[k]@);
                assert(self@[k] == self.rows@[k]@);
                assert forall|c: int| 0 <= c < self.ncols - 1 implies r@[k][c] == target[k][c] by {
                    assert(r.entry(k, c) == r.rows@[k]@[c]);
                }
            }
            assert(r@ =~= target);
        }
        r
    }

    /// The matrix with a new column `j` whose entries all equal `value`; the
    /// columns from `j` on move one place right.
    pub fn insert_column(&self, j: usize, value: T) -> (r: Matrix<T>)
        requires
            self.wf(),
            j <= self.ncols,
            self.ncols < usize::MAX,
        ensures
            r.wf(),
            r.nrows == self.nrows,
            r.ncols == self.ncols + 1,
            forall|i: int, c: int|
                0 <= i < r.nrows && 0 <= c < r.ncols ==> #[trigger] r.entry(i, c) == if c < j {
                    self.entry(i, c)
                } else if c == j {
                    value
                } else {
                    self.entry(i, c - 1)
                },
    {
        let mut out: Vec<Vec<T>> = Vec::new();
        let mut i: usize = 0;
        while i < self.nrows
            invariant
                self.wf(),
                j <= self.ncols < usize::MAX,
                i <= self.nrows,
                out@.len() == i,
                rows_have_len(out@, (self.ncols + 1) as nat),
                forall|k: int, c: int|
                    0 <= k < i && 0 <= c < self.ncols + 1 ==> #[trigger] out@[k]@[c] == if c < j {
                        self.entry(k, c)
                    } else if c == j {
                        value
                    } else {
                        self.entry(k, c - 1)
                    },
            decreases self.nrows - i,
        {
            let row = &self.rows[i];
            let mut new_row: Vec<T> = Vec::new();
            let mut c: usize = 0;
            while c <= self.ncols
                invariant
                    self.wf(),
                    i < self.nrows,
                    j <= self.ncols < usize::MAX,
                    row@ == self.rows@[i as int]@,
                    c <= self.ncols + 1,
                    new_row@.len() == c,
                    forall|d: int|
                        0 <= d < c ==> #[trigger] new_row@[d] == if d < j {
                            self.entry(i as int, d)
                        } else if d == j {
                            value
                        } else {
                            self.entry(i as int, d - 1)
                        },
                decreases self.ncols + 1 - c,
            {
                if c < j {
                    new_row.push(row[c]);
                } else if c == j {
                    new_row.push(value);
                } else {
                    new_row.push(row[c - 1]);
                }
                c = c + 1;
            }
            out.push(new_row);
            i = i + 1;
        }
        Matrix { nrows: self.nrows, ncols: self.ncols + 1, rows: out }
    }

    /// The transposed matrix.
    pub fn transpose(&self) -> (r: Matrix<T>)
        requires
            self.wf(),
        ensures
            r.wf(),
            r.nrows == self.ncols,
            r.ncols == self.nrows,
            forall|i: int, c: int|
                0 <= i < r.nrows && 0 <= c < r.ncols ==> #[trigger] r.entry(i, c) == self.entry(c, i),
            r@ == transpose_of(self@, self.ncols as nat),
    {
        let mut out: Vec<Vec<T>> = Vec::new();
        let mut j: usize = 0;
        while j < self.ncols
            invariant
                self.wf(),
                j <= self.ncols,
                out@.len() == j,
                rows_have_len(out@, self.nrows as nat),
                forall|k: int, c: int|
                    0 <= k < j && 0 <= c < self.nrows ==> #[trigger] out@[k]@[c] == self.entry(c, k),
                forall|k: int| 0 <= k < j ==> (#[trigger] out@[k])@ == column_of(self@, k),
            decreases self.ncols - j,
        {
            let col = self.column(j);
            out.push(col);
            j = j + 1;
        }
        let r = Matrix { nrows: self.ncols, ncols: self.nrows, rows: out };
        proof {
            r.lemma_view_rows();
        }
        assert(r@ =~= transpose_of(self@, self.ncols as nat));
        r
    }
}

} // verus!
