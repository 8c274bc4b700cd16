//! A small dense-matrix value type: construction with shape validation,
//! structural equality, addition, subtraction, matrix-matrix multiplication
//! and scalar multiplication over rectangular grids of machine integers.

pub mod matrix;
