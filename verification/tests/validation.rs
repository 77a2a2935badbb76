use calc::error::{check_index, DimensionError, IndexError, MatrixError};
use calc::matrix::{Matrix, Multiply, RowOp, Sum, Swap};

#[test]
fn check_index_accepts_the_full_valid_range() {
    assert_eq!(check_index(1, 3), Ok(()));
    assert_eq!(check_index(2, 3), Ok(()));
    assert_eq!(check_index(3, 3), Ok(()));
    assert_eq!(check_index(1, 1), Ok(()));
}

#[test]
fn check_index_reports_zero_as_below_range() {
    assert_eq!(check_index(0, 3), Err(IndexError::BelowRange));
    assert_eq!(check_index(0, 0), Err(IndexError::BelowRange));
}

#[test]
fn check_index_reports_index_and_limit_when_too_large() {
    assert_eq!(check_index(4, 3), Err(IndexError::OutOfRange { index: 4, limit: 3 }));
    assert_eq!(check_index(1, 0), Err(IndexError::OutOfRange { index: 1, limit: 0 }));
}

#[test]
fn create_succeeds_exactly_when_the_count_matches() {
    assert!(Matrix::create(2, 3, vec![1, 2, 3, 4, 5, 6]).is_ok());
    assert!(Matrix::create(2, 3, vec![1, 2, 3, 4, 5]).is_err());
    assert!(Matrix::create(2, 3, vec![1, 2, 3, 4, 5, 6, 7]).is_err());
}

#[test]
fn create_keeps_the_entries_unchanged() {
    let mat = Matrix::create(2, 2, vec![4, 3, 2, 1]).unwrap();
    assert_eq!(mat.list(), vec![4, 3, 2, 1]);
}

#[test]
fn create_with_too_few_values_reports_the_dimensions() {
    let res = Matrix::create(2, 2, vec![1, 2, 3]);
    assert_eq!(res.unwrap_err(), DimensionError { rows: 2, cols: 2, len: 3 });
}

#[test]
fn new_fills_every_entry() {
    let mat = Matrix::new(2, 3, 5).unwrap();
    assert_eq!(mat.list(), vec![5, 5, 5, 5, 5, 5]);
}

#[test]
fn identity_is_one_on_the_diagonal_and_zero_elsewhere() {
    let mat = Matrix::<i64>::identity(3).unwrap();
    assert_eq!(mat.list(), vec![1, 0, 0, 0, 1, 0, 0, 0, 1]);
    for i in 1..=3 {
        for j in 1..=3 {
            let expected = if i == j { 1 } else { 0 };
            assert_eq!(mat.entry(i, j), Ok(expected));
        }
    }
}

#[test]
fn entry_reads_one_based_row_major() {
    let mat = Matrix::create(2, 2, vec![1, 2, 3, 4]).unwrap();
    assert_eq!(mat.entry(1, 1), Ok(1));
    assert_eq!(mat.entry(1, 2), Ok(2));
    assert_eq!(mat.entry(2, 1), Ok(3));
    assert_eq!(mat.entry(2, 2), Ok(4));
}

#[test]
fn entry_rejects_out_of_bounds_indices() {
    let mat = Matrix::create(2, 3, vec![1, 2, 3, 4, 5, 6]).unwrap();
    assert_eq!(mat.entry(0, 1), Err(IndexError::BelowRange));
    assert_eq!(mat.entry(1, 0), Err(IndexError::BelowRange));
    assert_eq!(mat.entry(3, 1), Err(IndexError::OutOfRange { index: 3, limit: 2 }));
    assert_eq!(mat.entry(1, 4), Err(IndexError::OutOfRange { index: 4, limit: 3 }));
}

#[test]
fn update_overwrites_a_single_entry() {
    let mut mat = Matrix::create(2, 2, vec![1, 3, 5, 7]).unwrap();
    assert_eq!(mat.entry(1, 2), Ok(3));
    mat.update(1, 2, 0).unwrap();
    assert_eq!(mat.entry(1, 2), Ok(0));
    assert_eq!(mat.list(), vec![1, 0, 5, 7]);
}

#[test]
fn update_rejects_out_of_bounds_indices_and_changes_nothing() {
    let mut mat = Matrix::create(2, 2, vec![1, 2, 3, 4]).unwrap();
    assert_eq!(mat.update(0, 1, 9), Err(IndexError::BelowRange));
    assert_eq!(mat.update(3, 1, 9), Err(IndexError::OutOfRange { index: 3, limit: 2 }));
    assert_eq!(mat.update(1, 5, 9), Err(IndexError::OutOfRange { index: 5, limit: 2 }));
    assert_eq!(mat.list(), vec![1, 2, 3, 4]);
}

#[test]
fn list_is_a_copy_not_a_live_view() {
    let mut mat = Matrix::create(2, 2, vec![1, 2, 3, 4]).unwrap();
    let snapshot = mat.list();
    mat.update(1, 1, 99).unwrap();
    assert_eq!(snapshot, vec![1, 2, 3, 4]);
    assert_eq!(mat.list(), vec![99, 2, 3, 4]);
}

#[test]
fn failed_swap_leaves_the_matrix_unchanged() {
    let mut mat = Matrix::create(2, 2, vec![1, 2, 3, 4]).unwrap();
    let before = mat.list();
    let res = mat.op(RowOp::Swap(Swap { row_a: 0, row_b: 2 }));
    assert_eq!(res, Err(MatrixError { cause: IndexError::BelowRange }));
    assert_eq!(mat.list(), before);

    let res = mat.op(RowOp::Swap(Swap { row_a: 1, row_b: 3 }));
    assert_eq!(res, Err(MatrixError { cause: IndexError::OutOfRange { index: 3, limit: 2 } }));
    assert_eq!(mat.list(), before);
}

#[test]
fn failed_sum_leaves_the_matrix_unchanged() {
    let mut mat = Matrix::create(2, 2, vec![1, 2, 3, 4]).unwrap();
    let before = mat.list();
    let res = mat.op(RowOp::Sum(Sum { target_row: 3, source_row: 1 }));
    assert_eq!(res, Err(MatrixError { cause: IndexError::OutOfRange { index: 3, limit: 2 } }));
    assert_eq!(mat.list(), before);

    let res = mat.op(RowOp::Sum(Sum { target_row: 1, source_row: 0 }));
    assert_eq!(res, Err(MatrixError { cause: IndexError::BelowRange }));
    assert_eq!(mat.list(), before);
}

#[test]
fn failed_multiply_leaves_the_matrix_unchanged() {
    let mut mat = Matrix::create(2, 2, vec![1, 2, 3, 4]).unwrap();
    let before = mat.list();
    let res = mat.op(RowOp::Multiply(Multiply { row: 0, coefficient: 5 }));
    assert_eq!(res, Err(MatrixError { cause: IndexError::BelowRange }));
    assert_eq!(mat.list(), before);

    let res = mat.op(RowOp::Multiply(Multiply { row: 9, coefficient: 5 }));
    assert_eq!(res, Err(MatrixError { cause: IndexError::OutOfRange { index: 9, limit: 2 } }));
    assert_eq!(mat.list(), before);
}

#[test]
fn failed_elementary_reports_the_bad_row() {
    let res = Matrix::<i64>::elementary(2, Swap { row_a: 1, row_b: 3 });
    assert_eq!(res.unwrap_err(), MatrixError { cause: IndexError::OutOfRange { index: 3, limit: 2 } });
}

#[test]
fn degenerate_empty_matrix_round_trips() {
    let mat = Matrix::create(0, 5, Vec::<i64>::new()).unwrap();
    assert_eq!(mat.list(), Vec::<i64>::new());
    assert_eq!(mat.entry(1, 1), Err(IndexError::OutOfRange { index: 1, limit: 0 }));
}
