//! A dense numeric matrix with row-major storage, 1-based indexed access,
//! and elementary row operations (row swap, row sum, row scaling).
//!
//! Matrices are created through [`matrix::Matrix::create`] and mutated in
//! place by applying a [`matrix::RowOperation`]; every row index an operation
//! touches is validated against the matrix's row count before any entry is
//! written, so a failed application leaves the matrix unchanged.

pub mod error;
pub mod scalar;
pub mod view;
pub mod matrix;
pub mod laws;
