//! A two-component vector and a dense, row-major, two-dimensional matrix
//! indexed by such vectors.

pub mod matrix;
pub mod vector;

pub use crate::matrix::Matrix;
pub use crate::vector::Vec2;
