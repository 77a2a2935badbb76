//! The error taxonomy, and validation of 1-based indices against a limit.

use vstd::prelude::*;

verus! {

/// The outcome of checking one 1-based index against one limit.
///
/// Indices are 1-based throughout this crate, so `0` is always invalid and is
/// reported separately from an index that is merely too large: a `0` signals
/// a caller holding 0-based assumptions.
#[derive(Clone, Copy, Debug, PartialEq, Eq, Structural)]
pub enum IndexError {
    /// The index was `0`; matrices index from `1`.
    BelowRange,
    /// The index exceeds the largest valid index for this dimension.
    OutOfRange { index: usize, limit: usize },
}

/// Raised at construction when the number of supplied entries does not equal
/// `rows * cols`; construction fails rather than produce an inconsistent
/// matrix.
#[derive(Clone, Copy, Debug, PartialEq, Eq, Structural)]
pub struct DimensionError {
    pub rows: usize,
    pub cols: usize,
    pub len: usize,
}

/// An operation-level error: wraps the [`IndexError`] met while validating
/// the row indices a row operation touches.
#[derive(Clone, Copy, Debug, PartialEq, Eq, Structural)]
pub struct MatrixError {
    pub cause: IndexError,
}

/// What checking a 1-based `index` against `limit` returns.
pub open spec fn spec_check_index(index: usize, limit: usize) -> Result<(), IndexError> {
    if index < 1 {
        Err(IndexError::BelowRange)
    } else if index > limit {
        Err(IndexError::OutOfRange { index: index, limit: limit })
    } else {
        Ok(())
    }
}

/// True when `1 <= index <= limit`.
pub open spec fn index_in_range(index: usize, limit: usize) -> bool {
    1 <= index <= limit
}

/// Checks a 1-based `index` against `limit`: valid exactly when
/// `1 <= index <= limit`. Pure and total over all inputs, including `0`.
pub fn check_index(index: usize, limit: usize) -> (res: Result<(), IndexError>)
    ensures
        res == spec_check_index(index, limit),
        res is Ok <==> index_in_range(index, limit),
{
    if index < 1 {
        Err(IndexError::BelowRange)
    } else if index > limit {
        Err(IndexError::OutOfRange { index, limit })
    } else {
        Ok(())
    }
}

} // verus!
