//! The general laws of the row operations, proved once for every element
//! type and every well-formed matrix view.

use vstd::prelude::*;
use crate::error::{IndexError, MatrixError};
use crate::matrix::{spec_entry, Multiply, RowOp, RowOperation, Sum, Swap};
use crate::scalar::Scalar;
use crate::view::{identity_view, lemma_identity_at, lemma_index_decomposition, lemma_scale_row_at,
    lemma_sum_rows_at, lemma_swap_rows_at, MatrixView};

verus! {

/// Reading the identity matrix of size `s` at any in-range position
/// succeeds, and returns one on the diagonal and zero everywhere else.
pub proof fn lemma_identity_entry<T: Scalar>(s: usize, i: usize, j: usize)
    requires
        1 <= i <= s,
        1 <= j <= s,
    ensures
        i == j ==> spec_entry(identity_view::<T>(s), i, j) == Ok::<T, IndexError>(T::one_spec()),
        i != j ==> spec_entry(identity_view::<T>(s), i, j) == Ok::<T, IndexError>(T::zero_spec()),
{
    lemma_identity_at::<T>(s, i as int, j as int);
}

/// Swap is its own inverse: applying the same [`Swap`] twice in a row
/// restores the original matrix, for every pair of valid rows.
pub proof fn lemma_swap_is_self_inverse<T: Scalar>(v: MatrixView<T>, op: Swap)
    requires
        v.wf(),
        op.rows_valid(v),
    ensures
        op.apply_spec(v) is Ok,
        op.apply_spec(v) matches Ok(w) ==> op.apply_spec(w) == Ok::<MatrixView<T>, MatrixError>(
            v,
        ),
{
    let a = op.row_a as int;
    let b = op.row_b as int;
    let w = v.swap_rows(a, b);
    lemma_swap_rows_at(v, a, b);
    lemma_swap_rows_at(w, a, b);
    assert forall|i: int| 0 <= i < v.entries.len() implies w.swap_rows(a, b).entries[i]
        == v.entries[i] by {
        lemma_index_decomposition(v, i);
        let r = v.row_of(i);
        let c = v.col_of(i);
        assert(w.row_of(i) == r && w.col_of(i) == c);
        if r == a {
            assert(w.swap_rows(a, b).entries[i] == w.at(b, c));
            assert(w.at(b, c) == v.at(a, c));
            assert(v.at(a, c) == v.entries[i]);
        } else if r == b {
            assert(w.swap_rows(a, b).entries[i] == w.at(a, c));
            assert(w.at(a, c) == v.at(b, c));
            assert(v.at(b, c) == v.entries[i]);
        } else {
            assert(w.swap_rows(a, b).entries[i] == w.entries[i]);
            assert(w.entries[i] == v.entries[i]);
        }
    }
    assert(w.swap_rows(a, b) =~= v);
}

/// Sum leaves the source row unchanged whenever it is a different row, sets
/// every entry of the target row to the sum of the two rows' old entries at
/// that column, and touches no other row.
pub proof fn lemma_sum_adds_rowwise<T: Scalar>(v: MatrixView<T>, op: Sum)
    requires
        v.wf(),
        op.rows_valid(v),
    ensures
        op.apply_spec(v) is Ok,
        op.apply_spec(v) matches Ok(w) ==> {
            &&& forall|c: int|
                1 <= c <= v.cols ==> #[trigger] w.at(op.target_row as int, c) == v.at(
                    op.target_row as int,
                    c,
                ).add_spec(v.at(op.source_row as int, c))
            &&& op.source_row != op.target_row ==> forall|c: int|
                1 <= c <= v.cols ==> #[trigger] w.at(op.source_row as int, c) == v.at(
                    op.source_row as int,
                    c,
                )
            &&& forall|r: int, c: int|
                v.in_bounds(r, c) && r != op.target_row ==> #[trigger] w.at(r, c) == v.at(r, c)
        },
{
    lemma_sum_rows_at(v, op.target_row as int, op.source_row as int);
}

/// Multiplying a row by one changes nothing at all.
pub proof fn lemma_multiply_by_one_is_no_op<T: Scalar>(v: MatrixView<T>, op: Multiply<T>)
    requires
        v.wf(),
        op.rows_valid(v),
        op.coefficient == T::one_spec(),
    ensures
        op.apply_spec(v) == Ok::<MatrixView<T>, MatrixError>(v),
{
    let row = op.row as int;
    assert forall|i: int| 0 <= i < v.entries.len() implies v.scale_row(row, op.coefficient).entries[i]
        == v.entries[i] by {
        T::mul_one_is_identity(v.entries[i]);
    }
    assert(v.scale_row(row, op.coefficient) =~= v);
}

/// Multiplying a row by zero zeroes exactly the targeted row and no other.
pub proof fn lemma_multiply_by_zero_zeroes_row<T: Scalar>(v: MatrixView<T>, op: Multiply<T>)
    requires
        v.wf(),
        op.rows_valid(v),
        op.coefficient == T::zero_spec(),
    ensures
        op.apply_spec(v) is Ok,
        op.apply_spec(v) matches Ok(w) ==> {
            &&& forall|c: int|
                1 <= c <= v.cols ==> #[trigger] w.at(op.row as int, c) == T::zero_spec()
            &&& forall|r: int, c: int|
                v.in_bounds(r, c) && r != op.row ==> #[trigger] w.at(r, c) == v.at(r, c)
        },
{
    let row = op.row as int;
    lemma_scale_row_at(v, row, op.coefficient);
    let w = v.scale_row(row, op.coefficient);
    assert forall|c: int| 1 <= c <= v.cols implies #[trigger] w.at(row, c) == T::zero_spec() by {
        T::mul_zero_is_zero(v.at(row, c));
    }
}

/// Applying any row operation whose row index is zero or exceeds the row
/// count fails; together with the contract of
/// [`RowOperation::operate`], the failed call leaves the matrix unchanged.
pub proof fn lemma_apply_rejects_invalid_row<T: Scalar>(v: MatrixView<T>, op: RowOp<T>)
    requires
        v.wf(),
        !op.rows_valid(v),
    ensures
        op.apply_spec(v) is Err,
{
    op.lemma_apply_ok(v);
}

} // verus!
