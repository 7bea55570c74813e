//! The layout of a matrix-vector product `y := alpha * op(A) * x + beta * y`.

use vstd::prelude::*;
use crate::error::{LayoutError, Operand};
use crate::layout::{
    element_offset, leading_dimension_ok, lemma_operand_span_is_least,
    lemma_vector_span_is_least, matrix_span, op_offset, operand_fits, spec_element_offset,
    spec_entry_offset, spec_matrix_span, spec_op_offset, spec_vector_span, vector_fits,
    vector_span,
};
use crate::mode::Mode;

verus! {

/// Shapes and strides of one matrix-vector product. The matrix is stored
/// as `m` by `n`, whatever the mode.
#[derive(Clone, Copy, Debug, PartialEq, Eq, Structural)]
pub struct GemvLayout {
    /// How the product reads the matrix.
    pub mode: Mode,
    /// Rows of the stored matrix.
    pub m: i32,
    /// Columns of the stored matrix.
    pub n: i32,
    /// Leading dimension of the matrix.
    pub lda: i32,
    /// Increment of the input vector.
    pub incx: i32,
    /// Increment of the result vector.
    pub incy: i32,
}

/// The buffer `t` holds, with leading dimension `ldt`, the transpose of the
/// `m` by `n` matrix that `a` holds with leading dimension `lda`.
pub open spec fn holds_transpose<T>(t: Seq<T>, ldt: int, a: Seq<T>, lda: int, m: int, n: int) -> bool {
    forall|i: int, j: int|
        0 <= i < m && 0 <= j < n ==> #[trigger] t[spec_entry_offset(j, i, ldt)]
            == a[spec_entry_offset(i, j, lda)]
}

impl GemvLayout {
    /// Number of elements of the input vector: the columns of `op(A)`.
    pub open spec fn spec_input_len(self) -> int {
        match self.mode {
            Mode::Normal => self.n as int,
            Mode::Transposed => self.m as int,
        }
    }

    /// Number of elements of the result vector: the rows of `op(A)`.
    pub open spec fn spec_output_len(self) -> int {
        match self.mode {
            Mode::Normal => self.m as int,
            Mode::Transposed => self.n as int,
        }
    }

    /// The rules on the shape alone: no negative dimension, a leading
    /// dimension that keeps columns apart, and no zero increment.
    pub open spec fn well_formed(self) -> bool {
        &&& self.m >= 0
        &&& self.n >= 0
        &&& leading_dimension_ok(self.m as int, self.lda as int)
        &&& self.incx != 0
        &&& self.incy != 0
    }

    /// Every element that the product reads or writes lies inside its
    /// buffer.
    pub open spec fn fits(self, a_len: int, x_len: int, y_len: int) -> bool {
        &&& operand_fits(
            self.mode,
            self.spec_output_len(),
            self.spec_input_len(),
            self.lda as int,
            a_len,
        )
        &&& vector_fits(self.spec_input_len(), self.incx as int, x_len)
        &&& vector_fits(self.spec_output_len(), self.incy as int, y_len)
    }

    /// The first rule that the layout breaks, by the order of the
    /// product's arguments: shape first, then the three buffers.
    pub open spec fn verdict(self, a_len: int, x_len: int, y_len: int) -> Result<(), LayoutError> {
        if self.m < 0 {
            Err(LayoutError::NegativeRows)
        } else if self.n < 0 {
            Err(LayoutError::NegativeColumns)
        } else if !leading_dimension_ok(self.m as int, self.lda as int) {
            Err(LayoutError::LeadingDimension(Operand::A))
        } else if self.incx == 0 {
            Err(LayoutError::ZeroIncrement(Operand::X))
        } else if self.incy == 0 {
            Err(LayoutError::ZeroIncrement(Operand::Y))
        } else if a_len < spec_matrix_span(self.m as int, self.n as int, self.lda as int) {
            Err(LayoutError::ShortBuffer(Operand::A))
        } else if x_len < spec_vector_span(self.spec_input_len(), self.incx as int) {
            Err(LayoutError::ShortBuffer(Operand::X))
        } else if y_len < spec_vector_span(self.spec_output_len(), self.incy as int) {
            Err(LayoutError::ShortBuffer(Operand::Y))
        } else {
            Ok(())
        }
    }

    /// The layout of the same product on the stored transpose: the other
    /// mode, `m` and `n` exchanged, and the transpose's leading dimension.
    pub open spec fn swapped(self, ldt: i32) -> GemvLayout {
        (GemvLayout {
            mode: match self.mode {
                Mode::Normal => Mode::Transposed,
                Mode::Transposed => Mode::Normal,
            },
            m: self.n,
            n: self.m,
            lda: ldt,
            incx: self.incx,
            incy: self.incy,
        })
    }

    /// Offset of element `(i, j)` of `op(A)` in the matrix buffer.
    pub open spec fn spec_a_offset(self, i: int, j: int) -> int {
        spec_op_offset(self.mode, i, j, self.lda as int)
    }

    /// Offset of element `j` of the input vector in its buffer.
    pub open spec fn spec_x_offset(self, j: int) -> int {
        spec_element_offset(j, self.spec_input_len(), self.incx as int)
    }

    /// Offset of element `i` of the result vector in its buffer.
    pub open spec fn spec_y_offset(self, i: int) -> int {
        spec_element_offset(i, self.spec_output_len(), self.incy as int)
    }

    /// The verdict is `Ok` exactly for a well-formed shape whose every
    /// addressed element lies inside its buffer.
    pub proof fn lemma_verdict_is_validity(self, a_len: int, x_len: int, y_len: int)
        requires
            a_len >= 0,
            x_len >= 0,
            y_len >= 0,
        ensures
            self.verdict(a_len, x_len, y_len) is Ok <==> self.well_formed() && self.fits(
                a_len,
                x_len,
                y_len,
            ),
    {
        if self.well_formed() {
            lemma_operand_span_is_least(
                self.mode,
                self.spec_output_len(),
                self.spec_input_len(),
                self.lda as int,
                a_len,
            );
            lemma_vector_span_is_least(self.spec_input_len(), self.incx as int, x_len);
            lemma_vector_span_is_least(self.spec_output_len(), self.incy as int, y_len);
        }
    }

    /// A product reads from its matrix, element for element, what the
    /// product of the other mode reads from a buffer that holds the
    /// transpose, and the two have vectors of the same lengths.
    pub proof fn lemma_reads_transpose<T>(self, a: Seq<T>, t: Seq<T>, ldt: i32, i: int, j: int)
        requires
            holds_transpose(t, ldt as int, a, self.lda as int, self.m as int, self.n as int),
            0 <= i < self.spec_output_len(),
            0 <= j < self.spec_input_len(),
        ensures
            self.swapped(ldt).spec_output_len() == self.spec_output_len(),
            self.swapped(ldt).spec_input_len() == self.spec_input_len(),
            a[self.spec_a_offset(i, j)] == t[self.swapped(ldt).spec_a_offset(i, j)],
    {
        match self.mode {
            Mode::Normal => {
                assert(t[spec_entry_offset(j, i, ldt as int)] == a[spec_entry_offset(
                    i,
                    j,
                    self.lda as int,
                )]);
            },
            Mode::Transposed => {
                assert(t[spec_entry_offset(i, j, ldt as int)] == a[spec_entry_offset(
                    j,
                    i,
                    self.lda as int,
                )]);
            },
        }
    }

    /// Number of elements of the input vector.
    pub fn input_len(&self) -> (len: i32)
        ensures
            len == self.spec_input_len(),
    {
        match self.mode {
            Mode::Normal => self.n,
            Mode::Transposed => self.m,
        }
    }

    /// Number of elements of the result vector.
    pub fn output_len(&self) -> (len: i32)
        ensures
            len == self.spec_output_len(),
    {
        match self.mode {
            Mode::Normal => self.m,
            Mode::Transposed => self.n,
        }
    }

    /// Checks the shape and the lengths of the three buffers. `Ok` means
    /// that the product may run on them: the shape is well formed and
    /// nothing it addresses lies outside a buffer. Otherwise the error is
    /// the first rule broken.
    pub fn check(&self, a_len: usize, x_len: usize, y_len: usize) -> (r: Result<(), LayoutError>)
        ensures
            r == self.verdict(a_len as int, x_len as int, y_len as int),
            r is Ok <==> self.well_formed() && self.fits(
                a_len as int,
                x_len as int,
                y_len as int,
            ),
    {
        proof {
            self.lemma_verdict_is_validity(a_len as int, x_len as int, y_len as int);
        }
        if self.m < 0 {
            return Err(LayoutError::NegativeRows);
        }
        if self.n < 0 {
            return Err(LayoutError::NegativeColumns);
        }
        if self.lda < 1 || self.lda < self.m {
            return Err(LayoutError::LeadingDimension(Operand::A));
        }
        if self.incx == 0 {
            return Err(LayoutError::ZeroIncrement(Operand::X));
        }
        if self.incy == 0 {
            return Err(LayoutError::ZeroIncrement(Operand::Y));
        }
        if (a_len as u64) < matrix_span(self.m, self.n, self.lda) {
            return Err(LayoutError::ShortBuffer(Operand::A));
        }
        if (x_len as u64) < vector_span(self.input_len(), self.incx) {
            return Err(LayoutError::ShortBuffer(Operand::X));
        }
        if (y_len as u64) < vector_span(self.output_len(), self.incy) {
            return Err(LayoutError::ShortBuffer(Operand::Y));
        }
        Ok(())
    }

    /// Offset of element `(i, j)` of `op(A)` in the matrix buffer.
    pub fn a_offset(&self, i: i32, j: i32) -> (off: u64)
        requires
            self.well_formed(),
            0 <= i < self.spec_output_len(),
            0 <= j < self.spec_input_len(),
        ensures
            off == self.spec_a_offset(i as int, j as int),
    {
        op_offset(self.mode, i, j, self.lda)
    }

    /// Offset of element `j` of the input vector in its buffer.
    pub fn x_offset(&self, j: i32) -> (off: u64)
        requires
            0 <= j < self.spec_input_len(),
        ensures
            off == self.spec_x_offset(j as int),
    {
        element_offset(j, self.input_len(), self.incx)
    }

    /// Offset of element `i` of the result vector in its buffer.
    pub fn y_offset(&self, i: i32) -> (off: u64)
        requires
            0 <= i < self.spec_output_len(),
        ensures
            off == self.spec_y_offset(i as int),
    {
        element_offset(i, self.output_len(), self.incy)
    }
}

} // verus!
