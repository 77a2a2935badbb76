use calc::matrix::{Matrix, Multiply, RowOp, Sum, Swap};

#[test]
fn swap_rows() {
    let mut mat = Matrix::create(3, 3, vec![1, 2, 3, 4, 5, 6, 7, 8, 9]).unwrap();
    let swap = RowOp::Swap(Swap { row_a: 3, row_b: 1 });
    mat.op(swap).unwrap();
    assert_eq!(mat.list(), vec![7, 8, 9, 4, 5, 6, 1, 2, 3]);
}

#[test]
fn sum_rows() {
    let mut mat = Matrix::create(3, 3, vec![1, 2, 3, 4, 5, 6, 7, 8, 9]).unwrap();
    let sum = RowOp::Sum(Sum { target_row: 1, source_row: 2 });
    mat.op(sum).unwrap();
    assert_eq!(mat.list(), vec![5, 7, 9, 4, 5, 6, 7, 8, 9]);
}

#[test]
fn multiply_row() {
    let mut mat = Matrix::create(2, 3, vec![1, 2, 3, 4, 5, 6]).unwrap();
    let mult = RowOp::Multiply(Multiply { row: 1, coefficient: 3 });
    mat.op(mult).unwrap();
    assert_eq!(mat.list(), vec![3, 6, 9, 4, 5, 6]);
}

#[test]
fn elementary() {
    let elem = Matrix::<i64>::elementary(2, Swap { row_a: 1, row_b: 2 }).unwrap();
    assert_eq!(elem.list(), vec![0, 1, 1, 0]);
    let elem = Matrix::<i64>::elementary(2, Sum { target_row: 1, source_row: 2 }).unwrap();
    assert_eq!(elem.list(), vec![1, 1, 0, 1]);
    let elem = Matrix::<i64>::elementary(2, Multiply { row: 1, coefficient: 2 }).unwrap();
    assert_eq!(elem.list(), vec![2, 0, 0, 1]);
}

#[test]
fn swap_first_and_third_row() {
    let mut mat = Matrix::create(3, 3, vec![1, 2, 3, 4, 5, 6, 7, 8, 9]).unwrap();
    mat.op(RowOp::Swap(Swap { row_a: 1, row_b: 3 })).unwrap();
    assert_eq!(mat.list(), vec![7, 8, 9, 4, 5, 6, 1, 2, 3]);
}

#[test]
fn swap_twice_restores_the_matrix() {
    let mut mat = Matrix::create(3, 2, vec![1, 2, 3, 4, 5, 6]).unwrap();
    mat.op(RowOp::Swap(Swap { row_a: 2, row_b: 3 })).unwrap();
    mat.op(RowOp::Swap(Swap { row_a: 2, row_b: 3 })).unwrap();
    assert_eq!(mat.list(), vec![1, 2, 3, 4, 5, 6]);

    let mut same = Matrix::create(2, 2, vec![9, 8, 7, 6]).unwrap();
    same.op(RowOp::Swap(Swap { row_a: 1, row_b: 1 })).unwrap();
    same.op(RowOp::Swap(Swap { row_a: 1, row_b: 1 })).unwrap();
    assert_eq!(same.list(), vec![9, 8, 7, 6]);
}

#[test]
fn sum_leaves_source_row_unchanged() {
    let mut mat = Matrix::create(2, 3, vec![1, 2, 3, 10, 20, 30]).unwrap();
    mat.op(RowOp::Sum(Sum { target_row: 2, source_row: 1 })).unwrap();
    assert_eq!(mat.list(), vec![1, 2, 3, 11, 22, 33]);
}

#[test]
fn sum_of_a_row_with_itself_doubles_it() {
    let mut mat = Matrix::create(2, 2, vec![3, 5, 7, 11]).unwrap();
    mat.op(RowOp::Sum(Sum { target_row: 1, source_row: 1 })).unwrap();
    assert_eq!(mat.list(), vec![6, 10, 7, 11]);
}

#[test]
fn multiply_by_one_is_a_no_op() {
    let mut mat = Matrix::create(2, 2, vec![4, -3, 2, -1]).unwrap();
    mat.op(RowOp::Multiply(Multiply { row: 2, coefficient: 1 })).unwrap();
    assert_eq!(mat.list(), vec![4, -3, 2, -1]);
}

#[test]
fn multiply_by_zero_zeroes_only_the_targeted_row() {
    let mut mat = Matrix::create(3, 2, vec![1, 2, 3, 4, 5, 6]).unwrap();
    mat.op(RowOp::Multiply(Multiply { row: 2, coefficient: 0 })).unwrap();
    assert_eq!(mat.list(), vec![1, 2, 0, 0, 5, 6]);
}

#[test]
fn multiply_by_a_negative_coefficient() {
    let mut mat = Matrix::create(2, 2, vec![1, 2, 3, 4]).unwrap();
    mat.op(RowOp::Multiply(Multiply { row: 1, coefficient: -2 })).unwrap();
    assert_eq!(mat.list(), vec![-2, -4, 3, 4]);
}

#[test]
fn chained_operations_each_observe_the_previous_result() {
    let mut mat = Matrix::<i64>::identity(3).unwrap();
    mat.op(RowOp::Swap(Swap { row_a: 1, row_b: 2 })).unwrap();
    mat.op(RowOp::Sum(Sum { target_row: 3, source_row: 2 })).unwrap();
    mat.op(RowOp::Multiply(Multiply { row: 1, coefficient: 3 })).unwrap();
    assert_eq!(mat.list(), vec![0, 3, 0, 1, 0, 0, 1, 0, 1]);
}

#[test]
fn sum_saturates_instead_of_overflowing() {
    let mut mat = Matrix::create(2, 1, vec![i64::MAX, 1]).unwrap();
    mat.op(RowOp::Sum(Sum { target_row: 1, source_row: 2 })).unwrap();
    assert_eq!(mat.list(), vec![i64::MAX, 1]);

    let mut low = Matrix::create(2, 1, vec![i64::MIN, -1]).unwrap();
    low.op(RowOp::Sum(Sum { target_row: 1, source_row: 2 })).unwrap();
    assert_eq!(low.list(), vec![i64::MIN, -1]);
}

#[test]
fn multiply_saturates_instead_of_overflowing() {
    let mut mat = Matrix::create(1, 2, vec![i64::MAX, i64::MAX]).unwrap();
    mat.op(RowOp::Multiply(Multiply { row: 1, coefficient: -2 })).unwrap();
    assert_eq!(mat.list(), vec![i64::MIN, i64::MIN]);

    let mut high = Matrix::create(1, 1, vec![i64::MIN]).unwrap();
    high.op(RowOp::Multiply(Multiply { row: 1, coefficient: -1 })).unwrap();
    assert_eq!(high.list(), vec![i64::MAX]);
}
