//! What can be wrong with the shapes and buffers of a call.

use vstd::prelude::*;

verus! {

/// An operand of a product.
#[derive(Clone, Copy, Debug, PartialEq, Eq, Structural)]
pub enum Operand {
    /// The first matrix.
    A,
    /// The second matrix of a matrix-matrix product.
    B,
    /// The result matrix of a matrix-matrix product.
    C,
    /// The input vector of a matrix-vector product.
    X,
    /// The result vector of a matrix-vector product.
    Y,
}

/// The first rule that a call's layout breaks.
#[derive(Clone, Copy, Debug, PartialEq, Eq, Structural)]
pub enum LayoutError {
    /// The row count `m` is negative.
    NegativeRows,
    /// The column count `n` is negative.
    NegativeColumns,
    /// The contraction length `k` is negative.
    NegativeInner,
    /// The leading dimension of a matrix is below one or below the number
    /// of rows that the matrix is stored with.
    LeadingDimension(Operand),
    /// The increment of a vector is zero.
    ZeroIncrement(Operand),
    /// The buffer of an operand ends before the operand's last element.
    ShortBuffer(Operand),
}

} // verus!
