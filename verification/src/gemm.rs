//! The layout of a matrix-matrix product
//! `C := alpha * op(A) * op(B) + beta * C`.

use vstd::prelude::*;
use crate::error::{LayoutError, Operand};
use crate::layout::{
    entry_offset, leading_dimension_ok, lemma_matrix_span_is_least,
    lemma_operand_span_is_least, matrix_fits, matrix_span, op_offset, operand_fits,
    spec_entry_offset, spec_matrix_span, spec_op_offset, spec_stored_cols, spec_stored_rows,
};
use crate::mode::Mode;

verus! {

/// Shapes and strides of one matrix-matrix product: `op(A)` is `m` by `k`,
/// `op(B)` is `k` by `n`, and `C` is `m` by `n`.
#[derive(Clone, Copy, Debug, PartialEq, Eq, Structural)]
pub struct GemmLayout {
    /// How the product reads `A`.
    pub mode_a: Mode,
    /// How the product reads `B`.
    pub mode_b: Mode,
    /// Rows of `op(A)` and of `C`.
    pub m: i32,
    /// Columns of `op(B)` and of `C`.
    pub n: i32,
    /// Columns of `op(A)` and rows of `op(B)`.
    pub k: i32,
    /// Leading dimension of `A`.
    pub lda: i32,
    /// Leading dimension of `B`.
    pub ldb: i32,
    /// Leading dimension of `C`.
    pub ldc: i32,
}

impl GemmLayout {
    /// Rows that `A` is stored with.
    pub open spec fn spec_a_rows(self) -> int {
        spec_stored_rows(self.mode_a, self.m as int, self.k as int)
    }

    /// Columns that `A` is stored with.
    pub open spec fn spec_a_cols(self) -> int {
        spec_stored_cols(self.mode_a, self.m as int, self.k as int)
    }

    /// Rows that `B` is stored with.
    pub open spec fn spec_b_rows(self) -> int {
        spec_stored_rows(self.mode_b, self.k as int, self.n as int)
    }

    /// Columns that `B` is stored with.
    pub open spec fn spec_b_cols(self) -> int {
        spec_stored_cols(self.mode_b, self.k as int, self.n as int)
    }

    /// The rules on the shape alone: no negative dimension, and for each
    /// matrix a leading dimension that keeps its stored columns apart.
    pub open spec fn well_formed(self) -> bool {
        &&& self.m >= 0
        &&& self.n >= 0
        &&& self.k >= 0
        &&& leading_dimension_ok(self.spec_a_rows(), self.lda as int)
        &&& leading_dimension_ok(self.spec_b_rows(), self.ldb as int)
        &&& leading_dimension_ok(self.m as int, self.ldc as int)
    }

    /// Every element that the product reads or writes lies inside its
    /// buffer.
    pub open spec fn fits(self, a_len: int, b_len: int, c_len: int) -> bool {
        &&& operand_fits(self.mode_a, self.m as int, self.k as int, self.lda as int, a_len)
        &&& operand_fits(self.mode_b, self.k as int, self.n as int, self.ldb as int, b_len)
        &&& matrix_fits(self.m as int, self.n as int, self.ldc as int, c_len)
    }

    /// The first rule that the layout breaks, by the order of the
    /// product's arguments: shape first, then the three buffers.
    pub open spec fn verdict(self, a_len: int, b_len: int, c_len: int) -> Result<(), LayoutError> {
        if self.m < 0 {
            Err(LayoutError::NegativeRows)
        } else if self.n < 0 {
            Err(LayoutError::NegativeColumns)
        } else if self.k < 0 {
            Err(LayoutError::NegativeInner)
        } else if !leading_dimension_ok(self.spec_a_rows(), self.lda as int) {
            Err(LayoutError::LeadingDimension(Operand::A))
        } else if !leading_dimension_ok(self.spec_b_rows(), self.ldb as int) {
            Err(LayoutError::LeadingDimension(Operand::B))
        } else if !leading_dimension_ok(self.m as int, self.ldc as int) {
            Err(LayoutError::LeadingDimension(Operand::C))
        } else if a_len < spec_matrix_span(self.spec_a_rows(), self.spec_a_cols(), self.lda as int) {
            Err(LayoutError::ShortBuffer(Operand::A))
        } else if b_len < spec_matrix_span(self.spec_b_rows(), self.spec_b_cols(), self.ldb as int) {
            Err(LayoutError::ShortBuffer(Operand::B))
        } else if c_len < spec_matrix_span(self.m as int, self.n as int, self.ldc as int) {
            Err(LayoutError::ShortBuffer(Operand::C))
        } else {
            Ok(())
        }
    }

    /// Offset of element `(i, l)` of `op(A)` in the buffer of `A`.
    pub open spec fn spec_a_offset(self, i: int, l: int) -> int {
        spec_op_offset(self.mode_a, i, l, self.lda as int)
    }

    /// Offset of element `(l, j)` of `op(B)` in the buffer of `B`.
    pub open spec fn spec_b_offset(self, l: int, j: int) -> int {
        spec_op_offset(self.mode_b, l, j, self.ldb as int)
    }

    /// Offset of element `(i, j)` of `C` in its buffer.
    pub open spec fn spec_c_offset(self, i: int, j: int) -> int {
        spec_entry_offset(i, j, self.ldc as int)
    }

    /// The verdict is `Ok` exactly for a well-formed shape whose every
    /// addressed element lies inside its buffer.
    pub proof fn lemma_verdict_is_validity(self, a_len: int, b_len: int, c_len: int)
        requires
            a_len >= 0,
            b_len >= 0,
            c_len >= 0,
        ensures
            self.verdict(a_len, b_len, c_len) is Ok <==> self.well_formed() && self.fits(
                a_len,
                b_len,
                c_len,
            ),
    {
        if self.well_formed() {
            lemma_operand_span_is_least(
                self.mode_a,
                self.m as int,
                self.k as int,
                self.lda as int,
                a_len,
            );
            lemma_operand_span_is_least(
                self.mode_b,
                self.k as int,
                self.n as int,
                self.ldb as int,
                b_len,
            );
            lemma_matrix_span_is_least(self.m as int, self.n as int, self.ldc as int, c_len);
        }
    }

    /// A product without contraction terms addresses no element of `A` or
    /// `B`: whether it may run depends on the shape and on `C` alone.
    pub proof fn lemma_empty_contraction_reads_no_input(
        self,
        a_len: int,
        b_len: int,
        c_len: int,
    )
        requires
            self.k == 0,
            a_len >= 0,
            b_len >= 0,
            c_len >= 0,
        ensures
            self.fits(a_len, b_len, c_len) <==> matrix_fits(
                self.m as int,
                self.n as int,
                self.ldc as int,
                c_len,
            ),
            self.verdict(a_len, b_len, c_len) == self.verdict(0, 0, c_len),
    {
    }

    /// Rows that `A` is stored with.
    pub fn a_rows(&self) -> (rows: i32)
        ensures
            rows == self.spec_a_rows(),
    {
        match self.mode_a {
            Mode::Normal => self.m,
            Mode::Transposed => self.k,
        }
    }

    /// Columns that `A` is stored with.
    pub fn a_cols(&self) -> (cols: i32)
        ensures
            cols == self.spec_a_cols(),
    {
        match self.mode_a {
            Mode::Normal => self.k,
            Mode::Transposed => self.m,
        }
    }

    /// Rows that `B` is stored with.
    pub fn b_rows(&self) -> (rows: i32)
        ensures
            rows == self.spec_b_rows(),
    {
        match self.mode_b {
            Mode::Normal => self.k,
            Mode::Transposed => self.n,
        }
    }

    /// Columns that `B` is stored with.
    pub fn b_cols(&self) -> (cols: i32)
        ensures
            cols == self.spec_b_cols(),
    {
        match self.mode_b {
            Mode::Normal => self.n,
            Mode::Transposed => self.k,
        }
    }

    /// Checks the shape and the lengths of the three buffers. `Ok` means
    /// that the product may run on them: the shape is well formed and
    /// nothing it addresses lies outside a buffer. Otherwise the error is
    /// the first rule broken.
    pub fn check(&self, a_len: usize, b_len: usize, c_len: usize) -> (r: Result<(), LayoutError>)
        ensures
            r == self.verdict(a_len as int, b_len as int, c_len as int),
            r is Ok <==> self.well_formed() && self.fits(
                a_len as int,
                b_len as int,
                c_len as int,
            ),
    {
        proof {
            self.lemma_verdict_is_validity(a_len as int, b_len as int, c_len as int);
        }
        if self.m < 0 {
            return Err(LayoutError::NegativeRows);
        }
        if self.n < 0 {
            return Err(LayoutError::NegativeColumns);
        }
        if self.k < 0 {
            return Err(LayoutError::NegativeInner);
        }
        if self.lda < 1 || self.lda < self.a_rows() {
            return Err(LayoutError::LeadingDimension(Operand::A));
        }
        if self.ldb < 1 || self.ldb < self.b_rows() {
            return Err(LayoutError::LeadingDimension(Operand::B));
        }
        if self.ldc < 1 || self.ldc < self.m {
            return Err(LayoutError::LeadingDimension(Operand::C));
        }
        if (a_len as u64) < matrix_span(self.a_rows(), self.a_cols(), self.lda) {
            return Err(LayoutError::ShortBuffer(Operand::A));
        }
        if (b_len as u64) < matrix_span(self.b_rows(), self.b_cols(), self.ldb) {
            return Err(LayoutError::ShortBuffer(Operand::B));
        }
        if (c_len as u64) < matrix_span(self.m, self.n, self.ldc) {
            return Err(LayoutError::ShortBuffer(Operand::C));
        }
        Ok(())
    }

    /// Offset of element `(i, l)` of `op(A)` in the buffer of `A`.
    pub fn a_offset(&self, i: i32, l: i32) -> (off: u64)
        requires
            self.well_formed(),
            0 <= i < self.m,
            0 <= l < self.k,
        ensures
            off == self.spec_a_offset(i as int, l as int),
    {
        op_offset(self.mode_a, i, l, self.lda)
    }

    /// Offset of element `(l, j)` of `op(B)` in the buffer of `B`.
    pub fn b_offset(&self, l: i32, j: i32) -> (off: u64)
        requires
            self.well_formed(),
            0 <= l < self.k,
            0 <= j < self.n,
        ensures
            off == self.spec_b_offset(l as int, j as int),
    {
        op_offset(self.mode_b, l, j, self.ldb)
    }

    /// Offset of element `(i, j)` of `C` in its buffer.
    pub fn c_offset(&self, i: i32, j: i32) -> (off: u64)
        requires
            self.well_formed(),
            0 <= i < self.m,
            0 <= j < self.n,
        ensures
            off == self.spec_c_offset(i as int, j as int),
    {
        entry_offset(i, j, self.ldc)
    }
}

} // verus!
