//! Operand layout rules for the dense matrix-vector and matrix-matrix
//! products of BLAS: transpose modes, column-major and strided addressing,
//! and the checks that a call's shapes and buffers must pass.

pub mod error;
pub mod gemm;
pub mod gemv;
pub mod layout;
pub mod mode;
pub mod product;
