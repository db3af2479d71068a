//! Separable two-dimensional transforms over flat, row-major matrices.
//!
//! The crate is built around one primitive, the matrix transpose, offered in
//! a strided and in a cache-blocked form that are proved to compute the same
//! result. On top of it sits a pipeline that applies a one-dimensional kernel
//! along both axes of a matrix.

pub mod blocked;
pub mod kernel;
pub mod layout;
pub mod pipeline;
pub mod shape;
pub mod strategy;
pub mod strided;
pub mod tiling;
