//! The mathematical model of a matrix.
//!
//! A [`MatrixView`] is the value a matrix denotes: its two dimensions and the
//! row-major sequence of its entries. The contracts of the executable code
//! are stated over this model, through the spec functions here that read an
//! entry at a 1-based position and that describe what each row operation
//! does to the whole view.

use vstd::prelude::*;
use vstd::arithmetic::div_mod::{
    lemma_fundamental_div_mod, lemma_fundamental_div_mod_converse,
};
use crate::scalar::Scalar;

verus! {

/// The value of a matrix: `rows * cols` entries in row-major order.
///
/// The entry at 1-based position `(r, c)` lives at flat offset
/// `(r - 1) * cols + (c - 1)` of `entries`.
#[verifier::ext_equal]
pub ghost struct MatrixView<T> {
    pub rows: usize,
    pub cols: usize,
    pub entries: Seq<T>,
}

impl<T> MatrixView<T> {
    /// The shape invariant: the entry sequence fills the dimensions exactly.
    pub open spec fn wf(self) -> bool {
        self.entries.len() == self.rows * self.cols
    }

    /// Both indices are 1-based and within the dimensions.
    pub open spec fn in_bounds(self, r: int, c: int) -> bool {
        1 <= r <= self.rows && 1 <= c <= self.cols
    }

    /// The flat offset of the 1-based position `(r, c)`.
    pub open spec fn flat(self, r: int, c: int) -> int {
        (r - 1) * self.cols + (c - 1)
    }

    /// The 1-based row that flat offset `i` falls in.
    pub open spec fn row_of(self, i: int) -> int {
        i / (self.cols as int) + 1
    }

    /// The 1-based column that flat offset `i` falls in.
    pub open spec fn col_of(self, i: int) -> int {
        i % (self.cols as int) + 1
    }

    /// The entry at 1-based position `(r, c)`.
    pub open spec fn at(self, r: int, c: int) -> T {
        self.entries[self.flat(r, c)]
    }

    /// The view with the entry at 1-based `(r, c)` overwritten by `value`.
    pub open spec fn update_at(self, r: int, c: int, value: T) -> MatrixView<T> {
        MatrixView { entries: self.entries.update(self.flat(r, c), value), ..self }
    }

    /// The view with rows `a` and `b` exchanged, column by column.
    pub open spec fn swap_rows(self, a: int, b: int) -> MatrixView<T> {
        MatrixView {
            entries: Seq::new(
                self.entries.len(),
                |i: int|
                    if self.row_of(i) == a {
                        self.entries[self.flat(b, self.col_of(i))]
                    } else if self.row_of(i) == b {
                        self.entries[self.flat(a, self.col_of(i))]
                    } else {
                        self.entries[i]
                    },
            ),
            ..self
        }
    }
}

impl<T: Scalar> MatrixView<T> {
    /// The view with row `target` replaced by the elementwise sum of rows
    /// `target` and `source`; row `source` is left as it was.
    pub open spec fn sum_rows(self, target: int, source: int) -> MatrixView<T> {
        MatrixView {
            entries: Seq::new(
                self.entries.len(),
                |i: int|
                    if self.row_of(i) == target {
                        self.entries[i].add_spec(self.entries[self.flat(source, self.col_of(i))])
                    } else {
                        self.entries[i]
                    },
            ),
            ..self
        }
    }

    /// The view with every entry of row `row` multiplied by `coefficient`.
    pub open spec fn scale_row(self, row: int, coefficient: T) -> MatrixView<T> {
        MatrixView {
            entries: Seq::new(
                self.entries.len(),
                |i: int|
                    if self.row_of(i) == row {
                        self.entries[i].mul_spec(coefficient)
                    } else {
                        self.entries[i]
                    },
            ),
            ..self
        }
    }
}

/// The `s` by `s` identity: ones on the diagonal, zeros elsewhere. Flat
/// offset `i` is a diagonal cell exactly when `i` is a multiple of `s + 1`.
pub open spec fn identity_view<T: Scalar>(s: usize) -> MatrixView<T> {
    MatrixView {
        rows: s,
        cols: s,
        entries: Seq::new(
            (s * s) as nat,
            |i: int| if i % (s + 1) == 0 { T::one_spec() } else { T::zero_spec() },
        ),
    }
}

/// A 1-based position within bounds has its flat offset within the entry
/// sequence, and the offset falls back into the same row and column.
pub proof fn lemma_flat_in_range<T>(v: MatrixView<T>, r: int, c: int)
    requires
        v.wf(),
        v.in_bounds(r, c),
    ensures
        0 <= v.flat(r, c) < v.entries.len(),
        v.row_of(v.flat(r, c)) == r,
        v.col_of(v.flat(r, c)) == c,
{
    let cols = v.cols as int;
    let f = v.flat(r, c);
    assert(0 <= f && f < v.rows * v.cols) by (nonlinear_arith)
        requires
            1 <= r <= v.rows,
            1 <= c <= v.cols,
            f == (r - 1) * v.cols + (c - 1),
    ;
    lemma_fundamental_div_mod_converse(f, cols, r - 1, c - 1);
}

/// Every flat offset within the entry sequence falls in a row and a column
/// that are within bounds, and those two recover the offset.
pub proof fn lemma_index_decomposition<T>(v: MatrixView<T>, i: int)
    requires
        v.wf(),
        0 <= i < v.entries.len(),
    ensures
        v.in_bounds(v.row_of(i), v.col_of(i)),
        v.flat(v.row_of(i), v.col_of(i)) == i,
{
    let rows = v.rows as int;
    let cols = v.cols as int;
    assert(rows * cols > 0);
    assert(cols > 0) by (nonlinear_arith)
        requires
            rows * cols > 0,
            cols >= 0,
    ;
    lemma_fundamental_div_mod(i, cols);
    assert(0 <= i % cols < cols) by (nonlinear_arith)
        requires
            cols > 0,
            i >= 0,
    ;
    assert(0 <= i / cols < rows) by (nonlinear_arith)
        requires
            cols > 0,
            0 <= i < rows * cols,
            i == cols * (i / cols) + i % cols,
            0 <= i % cols < cols,
    ;
    assert(v.flat(v.row_of(i), v.col_of(i)) == (i / cols) * cols + i % cols);
    assert((i / cols) * cols == cols * (i / cols)) by (nonlinear_arith);
}

/// What swapping rows `a` and `b` does, entry by entry: the two rows trade
/// contents at every column, and every other row is untouched. The
/// dimensions do not change.
pub proof fn lemma_swap_rows_at<T>(v: MatrixView<T>, a: int, b: int)
    requires
        v.wf(),
        1 <= a <= v.rows,
        1 <= b <= v.rows,
    ensures
        v.swap_rows(a, b).wf(),
        v.swap_rows(a, b).rows == v.rows,
        v.swap_rows(a, b).cols == v.cols,
        forall|c: int|
            1 <= c <= v.cols ==> #[trigger] v.swap_rows(a, b).at(a, c) == v.at(b, c),
        forall|c: int|
            1 <= c <= v.cols ==> #[trigger] v.swap_rows(a, b).at(b, c) == v.at(a, c),
        forall|r: int, c: int|
            v.in_bounds(r, c) && r != a && r != b ==> #[trigger] v.swap_rows(a, b).at(r, c) == v.at(
                r,
                c,
            ),
{
    let w = v.swap_rows(a, b);
    assert forall|c: int| 1 <= c <= v.cols implies #[trigger] w.at(a, c) == v.at(b, c) by {
        lemma_flat_in_range(v, a, c);
    }
    assert forall|c: int| 1 <= c <= v.cols implies #[trigger] w.at(b, c) == v.at(a, c) by {
        lemma_flat_in_range(v, b, c);
    }
    assert forall|r: int, c: int|
        v.in_bounds(r, c) && r != a && r != b implies #[trigger] w.at(r, c) == v.at(r, c) by {
        lemma_flat_in_range(v, r, c);
    }
}

/// What summing row `source` into row `target` does, entry by entry: every
/// entry of row `target` becomes the sum of the two rows' old entries at
/// that column, and every other row is untouched — in particular row
/// `source`, whenever it is a different row. The dimensions do not change.
pub proof fn lemma_sum_rows_at<T: Scalar>(v: MatrixView<T>, target: int, source: int)
    requires
        v.wf(),
        1 <= target <= v.rows,
        1 <= source <= v.rows,
    ensures
        v.sum_rows(target, source).wf(),
        v.sum_rows(target, source).rows == v.rows,
        v.sum_rows(target, source).cols == v.cols,
        forall|c: int|
            1 <= c <= v.cols ==> #[trigger] v.sum_rows(target, source).at(target, c) == v.at(
                target,
                c,
            ).add_spec(v.at(source, c)),
        forall|r: int, c: int|
            v.in_bounds(r, c) && r != target ==> #[trigger] v.sum_rows(target, source).at(r, c)
                == v.at(r, c),
{
    let w = v.sum_rows(target, source);
    assert forall|c: int| 1 <= c <= v.cols implies #[trigger] w.at(target, c) == v.at(
        target,
        c,
    ).add_spec(v.at(source, c)) by {
        lemma_flat_in_range(v, target, c);
    }
    assert forall|r: int, c: int|
        v.in_bounds(r, c) && r != target implies #[trigger] w.at(r, c) == v.at(r, c) by {
        lemma_flat_in_range(v, r, c);
    }
}

/// What scaling row `row` by `coefficient` does, entry by entry: every entry
/// of that row is multiplied by the coefficient, and every other row is
/// untouched. The dimensions do not change.
pub proof fn lemma_scale_row_at<T: Scalar>(v: MatrixView<T>, row: int, coefficient: T)
    requires
        v.wf(),
        1 <= row <= v.rows,
    ensures
        v.scale_row(row, coefficient).wf(),
        v.scale_row(row, coefficient).rows == v.rows,
        v.scale_row(row, coefficient).cols == v.cols,
        forall|c: int|
            1 <= c <= v.cols ==> #[trigger] v.scale_row(row, coefficient).at(row, c) == v.at(
                row,
                c,
            ).mul_spec(coefficient),
        forall|r: int, c: int|
            v.in_bounds(r, c) && r != row ==> #[trigger] v.scale_row(row, coefficient).at(r, c)
                == v.at(r, c),
{
    let w = v.scale_row(row, coefficient);
    assert forall|c: int| 1 <= c <= v.cols implies #[trigger] w.at(row, c) == v.at(
        row,
        c,
    ).mul_spec(coefficient) by {
        lemma_flat_in_range(v, row, c);
    }
    assert forall|r: int, c: int|
        v.in_bounds(r, c) && r != row implies #[trigger] w.at(r, c) == v.at(r, c) by {
        lemma_flat_in_range(v, r, c);
    }
}

/// The identity view is well formed, and holds one at every diagonal cell
/// and zero everywhere else.
pub proof fn lemma_identity_at<T: Scalar>(s: usize, r: int, c: int)
    requires
        1 <= r <= s,
        1 <= c <= s,
    ensures
        identity_view::<T>(s).wf(),
        r == c ==> identity_view::<T>(s).at(r, c) == T::one_spec(),
        r != c ==> identity_view::<T>(s).at(r, c) == T::zero_spec(),
{
    let v = identity_view::<T>(s);
    lemma_flat_in_range(v, r, c);
    let f = v.flat(r, c);
    if r == c {
        assert(f == (r - 1) * (s + 1)) by (nonlinear_arith)
            requires
                f == (r - 1) * s + (c - 1),
                r == c,
        ;
        lemma_fundamental_div_mod_converse(f, s + 1, r - 1, 0);
    } else if r < c {
        assert(f == (r - 1) * (s + 1) + (c - r)) by (nonlinear_arith)
            requires
                f == (r - 1) * s + (c - 1),
        ;
        lemma_fundamental_div_mod_converse(f, s + 1, r - 1, c - r);
    } else {
        assert(f == (r - 2) * (s + 1) + (s + 1 + c - r)) by (nonlinear_arith)
            requires
                f == (r - 1) * s + (c - 1),
        ;
        lemma_fundamental_div_mod_converse(f, s + 1, r - 2, s + 1 + c - r);
    }
}

} // verus!
