//! Ordinary least-squares regression with added-variable diagnostics.
//!
//! The engine is generic over a scalar type that implements [`number::Number`],
//! which supplies arithmetic, the statistical distributions and the
//! linear-algebra kernels (inverse, pseudo-inverse, numeric rank).
//! The library itself owns the data layout, the shape and degrees-of-freedom
//! bookkeeping, and the order of the computation.

pub mod algebra;
pub mod degrees;
pub mod error;
pub mod estimate;
pub mod linear_model;
pub mod matrix;
pub mod number;
pub mod regression_data;
pub mod summary;
