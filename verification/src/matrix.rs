//! The matrix type and the elementary row operations.
//!
//! A [`Matrix`] owns a flat row-major `Vec` of entries together with its row
//! and column counts; the counts and the entry count always agree. Access is
//! 1-based and bounds-checked: both public element access and every row
//! operation validate the indices they touch through
//! [`crate::error::check_index`] before any offset arithmetic, and a row
//! operation that fails validation leaves the matrix unchanged.

use vstd::prelude::*;
use vstd::pervasive::unreached;
use crate::error::{check_index, index_in_range, spec_check_index, DimensionError, IndexError,
    MatrixError};
use crate::scalar::Scalar;
use crate::view::{identity_view, lemma_flat_in_range, lemma_index_decomposition, MatrixView};

verus! {

/// A matrix with `r` rows, `c` columns, and a `Vec` of entries arranged in
/// row-major order. The entry sequence always has exactly `r * c` elements;
/// construction fails rather than produce a value that breaks this.
#[derive(Debug)]
pub struct Matrix<T> {
    r: usize,
    c: usize,
    entries: Vec<T>,
}

impl<T> View for Matrix<T> {
    type V = MatrixView<T>;

    closed spec fn view(&self) -> MatrixView<T> {
        MatrixView { rows: self.r, cols: self.c, entries: self.entries@ }
    }
}

/// What element access at 1-based `(r, c)` returns: the entry, or the error
/// from the first index check that fails — the row is checked first.
pub open spec fn spec_entry<T>(v: MatrixView<T>, r: usize, c: usize) -> Result<T, IndexError> {
    match spec_check_index(r, v.rows) {
        Err(e) => Err(e),
        Ok(_) => match spec_check_index(c, v.cols) {
            Err(e) => Err(e),
            Ok(_) => Ok(v.at(r as int, c as int)),
        },
    }
}

/// What overwriting the entry at 1-based `(r, c)` returns: the updated view,
/// or the error from the first index check that fails — the row is checked
/// first.
pub open spec fn spec_update<T>(v: MatrixView<T>, r: usize, c: usize, value: T) -> Result<
    MatrixView<T>,
    IndexError,
> {
    match spec_check_index(r, v.rows) {
        Err(e) => Err(e),
        Ok(_) => match spec_check_index(c, v.cols) {
            Err(e) => Err(e),
            Ok(_) => Ok(v.update_at(r as int, c as int, value)),
        },
    }
}

impl<T: Scalar> Matrix<T> {
    /// The shape invariant of [`MatrixView`], lifted to the matrix itself.
    /// Every constructor establishes it and every method preserves it.
    pub open spec fn wf(&self) -> bool {
        self@.wf()
    }

    /// The main constructor: takes ownership of `entries` unchanged as the
    /// row-major contents of an `r` by `c` matrix, and fails with a
    /// [`DimensionError`] when the count of entries is not exactly `r * c`.
    pub fn create(r: usize, c: usize, entries: Vec<T>) -> (res: Result<Matrix<T>, DimensionError>)
        ensures
            res is Ok <==> entries@.len() == r * c,
            res matches Ok(m) ==> m.wf() && m@ == (MatrixView { rows: r, cols: c, entries: entries@ }),
            res is Err ==> res == Err::<Matrix<T>, DimensionError>(
                DimensionError { rows: r, cols: c, len: entries@.len() as usize },
            ),
    {
        let len = entries.len();
        let fits = if c == 0 {
            true
        } else {
            r <= usize::MAX / c
        };
        if fits {
            proof {
                if c > 0 {
                    assert(r * c <= usize::MAX) by (nonlinear_arith)
                        requires
                            c >= 1,
                            r <= usize::MAX / c,
                    ;
                }
            }
            if r * c == len {
                Ok(Matrix { r, c, entries })
            } else {
                Err(DimensionError { rows: r, cols: c, len })
            }
        } else {
            proof {
                assert(r * c > usize::MAX) by (nonlinear_arith)
                    requires
                        c >= 1,
                        r > usize::MAX / c,
                ;
            }
            Err(DimensionError { rows: r, cols: c, len })
        }
    }

    /// Builds an `r` by `c` matrix with every entry equal to `n`, delegating
    /// to [`Matrix::create`]; it succeeds for every shape whose entry count
    /// fits in memory.
    pub fn new(r: usize, c: usize, n: T) -> (res: Result<Matrix<T>, DimensionError>)
        requires
            r * c <= usize::MAX,
        ensures
            res matches Ok(m) && m.wf() && m@ == (MatrixView {
                rows: r,
                cols: c,
                entries: Seq::new((r * c) as nat, |i: int| n),
            }),
    {
        let total = r * c;
        let mut entries: Vec<T> = Vec::new();
        let mut i: usize = 0;
        while i < total
            invariant
                i == entries@.len(),
                i <= total,
                forall|j: int| 0 <= j < i ==> entries@[j] == n,
            decreases total - i,
        {
            entries.push(n);
            i = i + 1;
        }
        proof {
            assert(entries@ =~= Seq::new((r * c) as nat, |j: int| n));
        }
        let res = Matrix::create(r, c, entries);
        proof {
            assert(res matches Ok(m) ==> m@ =~= (MatrixView {
                rows: r,
                cols: c,
                entries: Seq::new((r * c) as nat, |j: int| n),
            }));
        }
        res
    }

    /// Builds the identity matrix of size `s`: a square matrix of zeros with
    /// a one at every cell along the main diagonal.
    pub fn identity(s: usize) -> (res: Result<Matrix<T>, DimensionError>)
        requires
            s * s <= usize::MAX,
        ensures
            res matches Ok(m) && m.wf() && m@ == identity_view::<T>(s),
    {
        proof {
            assert(s < usize::MAX) by (nonlinear_arith)
                requires
                    s * s <= usize::MAX,
                    0 <= s <= usize::MAX,
            ;
        }
        let total = s * s;
        let step = s + 1;
        let mut entries: Vec<T> = Vec::new();
        let mut i: usize = 0;
        while i < total
            invariant
                i == entries@.len(),
                i <= total,
                step == s + 1,
                forall|j: int|
                    0 <= j < i ==> entries@[j] == (if j % (s + 1) == 0 {
                        T::one_spec()
                    } else {
                        T::zero_spec()
                    }),
            decreases total - i,
        {
            if i % step == 0 {
                entries.push(T::one());
            } else {
                entries.push(T::zero());
            }
            i = i + 1;
        }
        proof {
            assert(entries@ =~= identity_view::<T>(s).entries);
        }
        let res = Matrix::create(s, s, entries);
        proof {
            assert(res matches Ok(m) ==> m@ =~= identity_view::<T>(s));
        }
        res
    }

    /// Builds the elementary matrix of size `s`: the identity matrix with
    /// the single row operation `operation` applied. Fails with the
    /// operation's own error when a row index it touches is outside `1..=s`.
    pub fn elementary<O: RowOperation<T>>(s: usize, operation: O) -> (res: Result<
        Matrix<T>,
        MatrixError,
    >)
        requires
            s * s <= usize::MAX,
        ensures
            match operation.apply_spec(identity_view::<T>(s)) {
                Ok(w) => res matches Ok(m) && m.wf() && m@ == w,
                Err(e) => res == Err::<Matrix<T>, MatrixError>(e),
            },
    {
        match Matrix::identity(s) {
            Ok(mut m) => {
                match operation.operate(&mut m) {
                    Ok(_) => Ok(m),
                    Err(e) => Err(e),
                }
            },
            Err(_) => unreached(),
        }
    }

    /// Applies a row operation to the matrix in place. Fails with the
    /// operation's own error when a row index it touches is out of range,
    /// leaving the matrix unchanged; on success the matrix stays available
    /// for further chained operations.
    pub fn op(&mut self, operation: RowOp<T>) -> (res: Result<(), MatrixError>)
        requires
            old(self).wf(),
        ensures
            final(self).wf(),
            match operation.apply_spec(old(self)@) {
                Ok(w) => res is Ok && final(self)@ == w,
                Err(e) => res == Err::<(), MatrixError>(e) && final(self)@ == old(self)@,
            },
    {
        operation.operate(self)
    }

    /// The flat offset of the validated 1-based position `(r, c)`.
    fn offset(&self, r: usize, c: usize) -> (i: usize)
        requires
            self.wf(),
            self@.in_bounds(r as int, c as int),
        ensures
            i == self@.flat(r as int, c as int),
            i < self@.entries.len(),
    {
        proof {
            lemma_flat_in_range(self@, r as int, c as int);
        }
        // The entry count is a usize, so the offset below it cannot overflow.
        let n = self.entries.len();
        proof {
            assert(self@.flat(r as int, c as int) < n);
        }
        (r - 1) * self.c + (c - 1)
    }

    /// Gets the entry at row `r` and column `c`, both 1-based; fails with an
    /// [`IndexError`] when either index is out of the matrix's bounds.
    pub fn entry(&self, r: usize, c: usize) -> (res: Result<T, IndexError>)
        requires
            self.wf(),
        ensures
            res == spec_entry(self@, r, c),
    {
        match check_index(r, self.r) {
            Err(e) => { return Err(e) },
            Ok(_) => {},
        }
        match check_index(c, self.c) {
            Err(e) => { return Err(e) },
            Ok(_) => {},
        }
        let i = self.offset(r, c);
        Ok(self.entries[i])
    }

    /// Overwrites the entry at row `r` and column `c`, both 1-based, with
    /// `data`; fails with an [`IndexError`] when either index is out of the
    /// matrix's bounds, leaving the matrix unchanged.
    pub fn update(&mut self, r: usize, c: usize, data: T) -> (res: Result<(), IndexError>)
        requires
            old(self).wf(),
        ensures
            final(self).wf(),
            match spec_update(old(self)@, r, c, data) {
                Ok(w) => res is Ok && final(self)@ == w,
                Err(e) => res == Err::<(), IndexError>(e) && final(self)@ == old(self)@,
            },
    {
        match check_index(r, self.r) {
            Err(e) => { return Err(e) },
            Ok(_) => {},
        }
        match check_index(c, self.c) {
            Err(e) => { return Err(e) },
            Ok(_) => {},
        }
        let i = self.offset(r, c);
        self.entries.set(i, data);
        Ok(())
    }

    /// Returns a copy of the entries in row-major order. It is a copy, not a
    /// live view: mutating the matrix afterwards cannot change it.
    pub fn list(&self) -> (res: Vec<T>)
        ensures
            res@ == self@.entries,
    {
        let n = self.entries.len();
        let mut out: Vec<T> = Vec::new();
        let mut i: usize = 0;
        while i < n
            invariant
                i == out@.len(),
                i <= n,
                n == self@.entries.len(),
                forall|j: int| 0 <= j < i ==> out@[j] == self@.entries[j],
            decreases n - i,
        {
            out.push(self.entries[i]);
            i = i + 1;
        }
        proof {
            assert(out@ =~= self@.entries);
        }
        out
    }
}

/// A row operation that can be applied to a matrix in place.
///
/// Each operation pins down, as a spec function, both the view it leaves
/// behind and the exact condition under which it succeeds: application
/// returns `Ok` precisely when every row index the operation touches is a
/// valid 1-based row of the matrix, and a failed application reports the
/// first offending index and changes nothing.
pub trait RowOperation<T: Scalar> {
    /// Every row index this operation touches is within `v`'s row count.
    spec fn rows_valid(&self, v: MatrixView<T>) -> bool;

    /// What applying this operation to `v` returns: the transformed view, or
    /// the error wrapping the first row-index check that fails.
    spec fn apply_spec(&self, v: MatrixView<T>) -> Result<MatrixView<T>, MatrixError>;

    /// Application succeeds exactly when every touched row index is valid.
    proof fn lemma_apply_ok(&self, v: MatrixView<T>)
        ensures
            self.apply_spec(v) is Ok <==> self.rows_valid(v),
    ;

    /// Applies this operation to `m` in place. On failure the matrix is left
    /// exactly as it was: no entry is mutated before validation passes.
    fn operate(&self, m: &mut Matrix<T>) -> (res: Result<(), MatrixError>)
        requires
            old(m).wf(),
        ensures
            final(m).wf(),
            match self.apply_spec(old(m)@) {
                Ok(w) => res is Ok && final(m)@ == w,
                Err(e) => res == Err::<(), MatrixError>(e) && final(m)@ == old(m)@,
            },
    ;
}

/// Row operation that swaps two rows of a matrix, exchanging their entries
/// at every column.
pub struct Swap {
    pub row_a: usize,
    pub row_b: usize,
}

impl<T: Scalar> RowOperation<T> for Swap {
    open spec fn rows_valid(&self, v: MatrixView<T>) -> bool {
        index_in_range(self.row_a, v.rows) && index_in_range(self.row_b, v.rows)
    }

    open spec fn apply_spec(&self, v: MatrixView<T>) -> Result<MatrixView<T>, MatrixError> {
        match spec_check_index(self.row_a, v.rows) {
            Err(e) => Err(MatrixError { cause: e }),
            Ok(_) => match spec_check_index(self.row_b, v.rows) {
                Err(e) => Err(MatrixError { cause: e }),
                Ok(_) => Ok(v.swap_rows(self.row_a as int, self.row_b as int)),
            },
        }
    }

    proof fn lemma_apply_ok(&self, v: MatrixView<T>) {
    }

    fn operate(&self, m: &mut Matrix<T>) -> (res: Result<(), MatrixError>) {
        match check_index(self.row_a, m.r) {
            Err(e) => { return Err(MatrixError { cause: e }) },
            Ok(_) => {},
        }
        match check_index(self.row_b, m.r) {
            Err(e) => { return Err(MatrixError { cause: e }) },
            Ok(_) => {},
        }
        let ghost v0 = m@;
        let ghost w = v0.swap_rows(self.row_a as int, self.row_b as int);
        let a = self.row_a;
        let b = self.row_b;
        let cols = m.c;
        let mut c0: usize = 0;
        proof {
            assert forall|i: int| 0 <= i < v0.entries.len() implies v0.col_of(i) >= 1 by {
                lemma_index_decomposition(v0, i);
            }
        }
        while c0 < cols
            invariant
                m.wf(),
                v0.wf(),
                m@.rows == v0.rows,
                m@.cols == v0.cols,
                m@.entries.len() == v0.entries.len(),
                cols == v0.cols,
                c0 <= cols,
                1 <= a <= v0.rows,
                1 <= b <= v0.rows,
                w == v0.swap_rows(a as int, b as int),
                forall|i: int|
                    0 <= i < v0.entries.len() ==> m@.entries[i] == (if (v0.row_of(i) == a
                        || v0.row_of(i) == b) && v0.col_of(i) <= c0 {
                        w.entries[i]
                    } else {
                        v0.entries[i]
                    }),
            decreases cols - c0,
        {
            let col = c0 + 1;
            let ia = m.offset(a, col);
            let ib = m.offset(b, col);
            proof {
                lemma_flat_in_range(v0, a as int, col as int);
                lemma_flat_in_range(v0, b as int, col as int);
            }
            let va = m.entries[ia];
            let vb = m.entries[ib];
            m.entries.set(ia, vb);
            m.entries.set(ib, va);
            proof {
                assert forall|i: int| 0 <= i < v0.entries.len() implies m@.entries[i] == (if (
                v0.row_of(i) == a || v0.row_of(i) == b) && v0.col_of(i) <= col {
                    w.entries[i]
                } else {
                    v0.entries[i]
                }) by {
                    lemma_index_decomposition(v0, i);
                }
            }
            c0 = col;
        }
        proof {
            assert forall|i: int| 0 <= i < v0.entries.len() implies m@.entries[i]
                == w.entries[i] by {
                lemma_index_decomposition(v0, i);
            }
            assert(m@ =~= w);
        }
        Ok(())
    }
}

/// Row operation that replaces row `target_row` with the elementwise sum of
/// rows `target_row` and `source_row`; the source row is left unmodified.
/// The two may coincide, which doubles that row.
pub struct Sum {
    pub target_row: usize,
    pub source_row: usize,
}

impl<T: Scalar> RowOperation<T> for Sum {
    open spec fn rows_valid(&self, v: MatrixView<T>) -> bool {
        index_in_range(self.target_row, v.rows) && index_in_range(self.source_row, v.rows)
    }

    open spec fn apply_spec(&self, v: MatrixView<T>) -> Result<MatrixView<T>, MatrixError> {
        match spec_check_index(self.target_row, v.rows) {
            Err(e) => Err(MatrixError { cause: e }),
            Ok(_) => match spec_check_index(self.source_row, v.rows) {
                Err(e) => Err(MatrixError { cause: e }),
                Ok(_) => Ok(v.sum_rows(self.target_row as int, self.source_row as int)),
            },
        }
    }

    proof fn lemma_apply_ok(&self, v: MatrixView<T>) {
    }

    fn operate(&self, m: &mut Matrix<T>) -> (res: Result<(), MatrixError>) {
        match check_index(self.target_row, m.r) {
            Err(e) => { return Err(MatrixError { cause: e }) },
            Ok(_) => {},
        }
        match check_index(self.source_row, m.r) {
            Err(e) => { return Err(MatrixError { cause: e }) },
            Ok(_) => {},
        }
        let ghost v0 = m@;
        let ghost w = v0.sum_rows(self.target_row as int, self.source_row as int);
        let target = self.target_row;
        let source = self.source_row;
        let cols = m.c;
        let mut c0: usize = 0;
        proof {
            assert forall|i: int| 0 <= i < v0.entries.len() implies v0.col_of(i) >= 1 by {
                lemma_index_decomposition(v0, i);
            }
        }
        while c0 < cols
            invariant
                m.wf(),
                v0.wf(),
                m@.rows == v0.rows,
                m@.cols == v0.cols,
                m@.entries.len() == v0.entries.len(),
                cols == v0.cols,
                c0 <= cols,
                1 <= target <= v0.rows,
                1 <= source <= v0.rows,
                w == v0.sum_rows(target as int, source as int),
                forall|i: int|
                    0 <= i < v0.entries.len() ==> m@.entries[i] == (if v0.row_of(i) == target
                        && v0.col_of(i) <= c0 {
                        w.entries[i]
                    } else {
                        v0.entries[i]
                    }),
            decreases cols - c0,
        {
            let col = c0 + 1;
            let it = m.offset(target, col);
            let is = m.offset(source, col);
            proof {
                lemma_flat_in_range(v0, target as int, col as int);
                lemma_flat_in_range(v0, source as int, col as int);
            }
            let vt = m.entries[it];
            let vs = m.entries[is];
            m.entries.set(it, vt.add(vs));
            proof {
                assert forall|i: int| 0 <= i < v0.entries.len() implies m@.entries[i] == (if
                v0.row_of(i) == target && v0.col_of(i) <= col {
                    w.entries[i]
                } else {
                    v0.entries[i]
                }) by {
                    lemma_index_decomposition(v0, i);
                }
            }
            c0 = col;
        }
        proof {
            assert forall|i: int| 0 <= i < v0.entries.len() implies m@.entries[i]
                == w.entries[i] by {
                lemma_index_decomposition(v0, i);
            }
            assert(m@ =~= w);
        }
        Ok(())
    }
}

/// Row operation that multiplies every entry of row `row` by `coefficient`.
/// A coefficient of zero is permitted and zeroes the row.
pub struct Multiply<T> {
    pub row: usize,
    pub coefficient: T,
}

impl<T: Scalar> RowOperation<T> for Multiply<T> {
    open spec fn rows_valid(&self, v: MatrixView<T>) -> bool {
        index_in_range(self.row, v.rows)
    }

    open spec fn apply_spec(&self, v: MatrixView<T>) -> Result<MatrixView<T>, MatrixError> {
        match spec_check_index(self.row, v.rows) {
            Err(e) => Err(MatrixError { cause: e }),
            Ok(_) => Ok(v.scale_row(self.row as int, self.coefficient)),
        }
    }

    proof fn lemma_apply_ok(&self, v: MatrixView<T>) {
    }

    fn operate(&self, m: &mut Matrix<T>) -> (res: Result<(), MatrixError>) {
        match check_index(self.row, m.r) {
            Err(e) => { return Err(MatrixError { cause: e }) },
            Ok(_) => {},
        }
        let ghost v0 = m@;
        let ghost w = v0.scale_row(self.row as int, self.coefficient);
        let row = self.row;
        let co = self.coefficient;
        let cols = m.c;
        let mut c0: usize = 0;
        proof {
            assert forall|i: int| 0 <= i < v0.entries.len() implies v0.col_of(i) >= 1 by {
                lemma_index_decomposition(v0, i);
            }
        }
        while c0 < cols
            invariant
                m.wf(),
                v0.wf(),
                m@.rows == v0.rows,
                m@.cols == v0.cols,
                m@.entries.len() == v0.entries.len(),
                cols == v0.cols,
                c0 <= cols,
                1 <= row <= v0.rows,
                co == self.coefficient,
                w == v0.scale_row(row as int, co),
                forall|i: int|
                    0 <= i < v0.entries.len() ==> m@.entries[i] == (if v0.row_of(i) == row
                        && v0.col_of(i) <= c0 {
                        w.entries[i]
                    } else {
                        v0.entries[i]
                    }),
            decreases cols - c0,
        {
            let col = c0 + 1;
            let ir = m.offset(row, col);
            proof {
                lemma_flat_in_range(v0, row as int, col as int);
            }
            let vr = m.entries[ir];
            m.entries.set(ir, vr.mul(co));
            proof {
                assert forall|i: int| 0 <= i < v0.entries.len() implies m@.entries[i] == (if
                v0.row_of(i) == row && v0.col_of(i) <= col {
                    w.entries[i]
                } else {
                    v0.entries[i]
                }) by {
                    lemma_index_decomposition(v0, i);
                }
            }
            c0 = col;
        }
        proof {
            assert forall|i: int| 0 <= i < v0.entries.len() implies m@.entries[i]
                == w.entries[i] by {
                lemma_index_decomposition(v0, i);
            }
            assert(m@ =~= w);
        }
        Ok(())
    }
}

/// The closed set of row operations, one variant per kind.
pub enum RowOp<T> {
    Swap(Swap),
    Sum(Sum),
    Multiply(Multiply<T>),
}

impl<T: Scalar> RowOperation<T> for RowOp<T> {
    open spec fn rows_valid(&self, v: MatrixView<T>) -> bool {
        match self {
            RowOp::Swap(inner) => inner.rows_valid(v),
            RowOp::Sum(inner) => inner.rows_valid(v),
            RowOp::Multiply(inner) => inner.rows_valid(v),
        }
    }

    open spec fn apply_spec(&self, v: MatrixView<T>) -> Result<MatrixView<T>, MatrixError> {
        match self {
            RowOp::Swap(inner) => inner.apply_spec(v),
            RowOp::Sum(inner) => inner.apply_spec(v),
            RowOp::Multiply(inner) => inner.apply_spec(v),
        }
    }

    proof fn lemma_apply_ok(&self, v: MatrixView<T>) {
        match self {
            RowOp::Swap(inner) => inner.lemma_apply_ok(v),
            RowOp::Sum(inner) => inner.lemma_apply_ok(v),
            RowOp::Multiply(inner) => inner.lemma_apply_ok(v),
        }
    }

    fn operate(&self, m: &mut Matrix<T>) -> (res: Result<(), MatrixError>) {
        match self {
            RowOp::Swap(inner) => inner.operate(m),
            RowOp::Sum(inner) => inner.operate(m),
            RowOp::Multiply(inner) => inner.operate(m),
        }
    }
}

} // verus!
