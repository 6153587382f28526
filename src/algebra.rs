use vstd::prelude::*;

use crate::matrix::{column_of, rows_have_len, transpose_of, Matrix};
use crate::number::Number;

verus! {

/// `Σ a[k] · b[k]` over the first `a.len()` entries, summed from the left.
pub open spec fn dot_spec<T: Number>(a: Seq<T>, b: Seq<T>) -> T
    decreases a.len(),
{
    if a.len() == 0 {
        T::spec_zero()
    } else {
        let k = a.len() - 1;
        dot_spec(a.subrange(0, k), b).spec_plus(a[k].spec_times(b[k]))
    }
}

/// `Σ a[k]`, summed from the left.
pub open spec fn sum_spec<T: Number>(a: Seq<T>) -> T
    decreases a.len(),
{
    if a.len() == 0 {
        T::spec_zero()
    } else {
        let k = a.len() - 1;
        sum_spec(a.subrange(0, k)).spec_plus(a[k])
    }
}

/// The arithmetic mean of `a`.
pub open spec fn mean_spec<T: Number>(a: Seq<T>) -> T {
    sum_spec(a).spec_divided_by(T::spec_from_usize(a.len() as usize))
}

/// `a - s · b`, entry by entry.
pub open spec fn minus_scaled_spec<T: Number>(a: Seq<T>, s: T, b: Seq<T>) -> Seq<T> {
    Seq::new(a.len(), |i: int| a[i].spec_minus(s.spec_times(b[i])))
}

/// `a + s · b`, entry by entry.
pub open spec fn plus_scaled_spec<T: Number>(a: Seq<T>, s: T, b: Seq<T>) -> Seq<T> {
    Seq::new(a.len(), |i: int| a[i].spec_plus(s.spec_times(b[i])))
}

/// `a - b`, entry by entry.
pub open spec fn difference_spec<T: Number>(a: Seq<T>, b: Seq<T>) -> Seq<T> {
    Seq::new(a.len(), |i: int| a[i].spec_minus(b[i]))
}

/// Each entry of `a` minus `c`.
pub open spec fn shifted_spec<T: Number>(a: Seq<T>, c: T) -> Seq<T> {
    Seq::new(a.len(), |i: int| a[i].spec_minus(c))
}

/// The product of the rows `m` with the vector `v`.
pub open spec fn mat_vec_spec<T: Number>(m: Seq<Seq<T>>, v: Seq<T>) -> Seq<T> {
    Seq::new(m.len(), |i: int| dot_spec(m[i], v))
}

/// The product of the rows `a` with the rows `b`, which have `ncols` entries each.
pub open spec fn mat_mul_spec<T: Number>(a: Seq<Seq<T>>, b: Seq<Seq<T>>, ncols: nat) -> Seq<
    Seq<T>,
> {
    Seq::new(a.len(), |i: int| Seq::new(ncols, |j: int| dot_spec(a[i], column_of(b, j))))
}

/// The inner product of two vectors of the same length.
pub fn dot<T: Number>(a: &Vec<T>, b: &Vec<T>) -> (r: T)
    requires
        a@.len() == b@.len(),
    ensures
        r == dot_spec(a@, b@),
{
    let mut acc = T::zero();
    let mut i: usize = 0;
    while i < a.len()
        invariant
            a@.len() == b@.len(),
            i <= a@.len(),
            acc == dot_spec(a@.subrange(0, i as int), b@),
        decreases a@.len() - i,
    {
        assert(a@.subrange(0, i + 1).subrange(0, i as int) =~= a@.subrange(0, i as int));
        acc = acc.plus(a[i].times(b[i]));
        i = i + 1;
    }
    assert(a@.subrange(0, a@.len() as int) =~= a@);
    acc
}

/// The squared Euclidean norm.
pub fn norm_squared<T: Number>(a: &Vec<T>) -> (r: T)
    ensures
        r == dot_spec(a@, a@),
{
    dot(a, a)
}

/// The arithmetic mean of the entries.
pub fn mean<T: Number>(a: &Vec<T>) -> (r: T)
    ensures
        r == mean_spec(a@),
{
    let mut sum = T::zero();
    let mut i: usize = 0;
    while i < a.len()
        invariant
            i <= a@.len(),
            sum == sum_spec(a@.subrange(0, i as int)),
        decreases a@.len() - i,
    {
        assert(a@.subrange(0, i + 1).subrange(0, i as int) =~= a@.subrange(0, i as int));
        sum = sum.plus(a[i]);
        i = i + 1;
    }
    assert(a@.subrange(0, a@.len() as int) =~= a@);
    sum.divided_by(T::from_usize(a.len()))
}

/// `a - s * b`, entry by entry.
pub fn minus_scaled<T: Number>(a: &Vec<T>, s: T, b: &Vec<T>) -> (r: Vec<T>)
    requires
        a@.len() == b@.len(),
    ensures
        r@ == minus_scaled_spec(a@, s, b@),
{
    let mut out: Vec<T> = Vec::new();
    let mut i: usize = 0;
    while i < a.len()
        invariant
            a@.len() == b@.len(),
            i <= a@.len(),
            out@ == minus_scaled_spec(a@, s, b@).subrange(0, i as int),
        decreases a@.len() - i,
    {
        out.push(a[i].minus(s.times(b[i])));
        i = i + 1;
        assert(out@ =~= minus_scaled_spec(a@, s, b@).subrange(0, i as int));
    }
    assert(out@ =~= minus_scaled_spec(a@, s, b@));
    out
}

/// `a + s * b`, entry by entry.
pub fn plus_scaled<T: Number>(a: &Vec<T>, s: T, b: &Vec<T>) -> (r: Vec<T>)
    requires
        a@.len() == b@.len(),
    ensures
        r@ == plus_scaled_spec(a@, s, b@),
{
    let mut out: Vec<T> = Vec::new();
    let mut i: usize = 0;
    while i < a.len()
        invariant
            a@.len() == b@.len(),
            i <= a@.len(),
            out@ == plus_scaled_spec(a@, s, b@).subrange(0, i as int),
        decreases a@.len() - i,
    {
        out.push(a[i].plus(s.times(b[i])));
        i = i + 1;
        assert(out@ =~= plus_scaled_spec(a@, s, b@).subrange(0, i as int));
    }
    assert(out@ =~= plus_scaled_spec(a@, s, b@));
    out
}

/// `a - b`, entry by entry.
pub fn difference<T: Number>(a: &Vec<T>, b: &Vec<T>) -> (r: Vec<T>)
    requires
        a@.len() == b@.len(),
    ensures
        r@ == difference_spec(a@, b@),
{
    let mut out: Vec<T> = Vec::new();
    let mut i: usize = 0;
    while i < a.len()
        invariant
            a@.len() == b@.len(),
            i <= a@.len(),
            out@ == difference_spec(a@, b@).subrange(0, i as int),
        decreases a@.len() - i,
    {
        out.push(a[i].minus(b[i]));
        i = i + 1;
        assert(out@ =~= difference_spec(a@, b@).subrange(0, i as int));
    }
    assert(out@ =~= difference_spec(a@, b@));
    out
}

/// Each entry with `c` subtracted.
pub fn shifted<T: Number>(a: &Vec<T>, c: T) -> (r: Vec<T>)
    ensures
        r@ == shifted_spec(a@, c),
{
    let mut out: Vec<T> = Vec::new();
    let mut i: usize = 0;
    while i < a.len()
        invariant
            i <= a@.len(),
            out@ == shifted_spec(a@, c).subrange(0, i as int),
        decreases a@.len() - i,
    {
        out.push(a[i].minus(c));
        i = i + 1;
        assert(out@ =~= shifted_spec(a@, c).subrange(0, i as int));
    }
    assert(out@ =~= shifted_spec(a@, c));
    out
}

/// The product `m · v`.
pub fn mat_vec<T: Number>(m: &Matrix<T>, v: &Vec<T>) -> (r: Vec<T>)
    requires
        m.wf(),
        v@.len() == m.ncols,
    ensures
        r@ == mat_vec_spec(m@, v@),
{
    proof {
        m.lemma_view_rows();
    }
    let mut out: Vec<T> = Vec::new();
    let mut i: usize = 0;
    while i < m.nrows
        invariant
            m.wf(),
            m@.len() == m.nrows,
            forall|k: int| 0 <= k < m.nrows ==> #[trigger] m@[k] == m.rows@[k]@,
            v@.len() == m.ncols,
            i <= m.nrows,
            out@ == mat_vec_spec(m@, v@).subrange(0, i as int),
        decreases m.nrows - i,
    {
        let d = dot(&m.rows[i], v);
        assert(m@[i as int] == m.rows@[i as int]@);
        out.push(d);
        i = i + 1;
        assert(out@ =~= mat_vec_spec(m@, v@).subrange(0, i as int));
    }
    assert(out@ =~= mat_vec_spec(m@, v@));
    out
}

/// The product `a · b`.
pub fn mat_mul<T: Number>(a: &Matrix<T>, b: &Matrix<T>) -> (r: Matrix<T>)
    requires
        a.wf(),
        b.wf(),
        a.ncols == b.nrows,
    ensures
        r.wf(),
        r.nrows == a.nrows,
        r.ncols == b.ncols,
        r@ == mat_mul_spec(a@, b@, b.ncols as nat),
{
    let bt = b.transpose();
    proof {
        a.lemma_view_rows();
        bt.lemma_view_rows();
        assert forall|k: int| 0 <= k < bt.nrows implies #[trigger] bt.rows@[k]@ == column_of(
            b@,
            k,
        ) by {
            assert(bt@[k] == bt.rows@[k]@);
            assert(bt@[k] == transpose_of(b@, b.ncols as nat)[k]);
        }
    }
    let ghost target = mat_mul_spec(a@, b@, b.ncols as nat);
    let mut out: Vec<Vec<T>> = Vec::new();
    let mut i: usize = 0;
    while i < a.nrows
        invariant
            a.wf(),
            bt.wf(),
            bt.nrows == b.ncols,
            bt.ncols == a.ncols,
            a@.len() == a.nrows,
            forall|k: int| 0 <= k < a.nrows ==> #[trigger] a@[k] == a.rows@[k]@,
            forall|k: int| 0 <= k < bt.nrows ==> #[trigger] bt.rows@[k]@ == column_of(b@, k),
            target == mat_mul_spec(a@, b@, b.ncols as nat),
            i <= a.nrows,
            out@.len() == i,
            rows_have_len(out@, b.ncols as nat),
            forall|k: int| 0 <= k < i ==> (#[trigger] out@[k])@ == target[k],
        decreases a.nrows - i,
    {
        let row = &a.rows[i];
        let mut new_row: Vec<T> = Vec::new();
        let mut j: usize = 0;
        while j < bt.nrows
            invariant
                a.wf(),
                bt.wf(),
                bt.ncols == a.ncols,
                i < a.nrows,
                row@ == a.rows@[i as int]@,
                row@ == a@[i as int],
                forall|k: int| 0 <= k < bt.nrows ==> #[trigger] bt.rows@[k]@ == column_of(b@, k),
                target == mat_mul_spec(a@, b@, b.ncols as nat),
                bt.nrows == b.ncols,
                a@.len() == a.nrows,
                j <= bt.nrows,
                new_row@ == target[i as int].subrange(0, j as int),
            decreases bt.nrows - j,
        {
            let d = dot(row, &bt.rows[j]);
            new_row.push(d);
            j = j + 1;
            assert(new_row@ =~= target[i as int].subrange(0, j as int));
        }
        assert(new_row@ =~= target[i as int]);
        out.push(new_row);
        i = i + 1;
    }
    let r = Matrix { nrows: a.nrows, ncols: b.ncols, rows: out };
    proof {
        r.lemma_view_rows();
    }
    assert(r@ =~= target);
    r
}

/// The diagonal of a square matrix.
pub fn diagonal<T: Number>(m: &Matrix<T>) -> (r: Vec<T>)
    requires
        m.wf(),
        m.nrows == m.ncols,
    ensures
        r@.len() == m.nrows,
        forall|i: int| 0 <= i < m.nrows ==> r@[i] == m.entry(i, i),
{
    let mut out: Vec<T> = Vec::new();
    let mut i: usize = 0;
    while i < m.nrows
        invariant
            m.wf(),
            m.nrows == m.ncols,
            i <= m.nrows,
            out@.len() == i,
            forall|k: int| 0 <= k < i ==> out@[k] == m.entry(k, k),
        decreases m.nrows - i,
    {
        out.push(m.get(i, i));
        i = i + 1;
    }
    out
}

} // verus!
