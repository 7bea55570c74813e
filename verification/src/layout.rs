//! Column-major and strided addressing: where each element of a matrix or a
//! vector lies in its buffer, and how long the buffer has to be.

use vstd::prelude::*;
use crate::mode::Mode;

verus! {

/// Offset of element `(i, j)` of a column-major matrix whose columns lie
/// `ld` elements apart.
pub open spec fn spec_entry_offset(i: int, j: int, ld: int) -> int {
    i + j * ld
}

/// Offset of element `(i, j)` of `op(A)`: of `A` itself, or of its transpose
/// read in place.
pub open spec fn spec_op_offset(mode: Mode, i: int, j: int, ld: int) -> int {
    match mode {
        Mode::Normal => spec_entry_offset(i, j, ld),
        Mode::Transposed => spec_entry_offset(j, i, ld),
    }
}

/// Rows of the stored matrix whose `op` is `rows` by `cols`.
pub open spec fn spec_stored_rows(mode: Mode, rows: int, cols: int) -> int {
    match mode {
        Mode::Normal => rows,
        Mode::Transposed => cols,
    }
}

/// Columns of the stored matrix whose `op` is `rows` by `cols`.
pub open spec fn spec_stored_cols(mode: Mode, rows: int, cols: int) -> int {
    match mode {
        Mode::Normal => cols,
        Mode::Transposed => rows,
    }
}

/// Offset of element `i` of a vector of `len` elements that lie `|inc|`
/// apart. A negative increment walks the buffer from its far end.
pub open spec fn spec_element_offset(i: int, len: int, inc: int) -> int {
    if inc >= 0 {
        i * inc
    } else {
        (len - 1 - i) * (-inc)
    }
}

/// Every element of a stored `rows` by `cols` matrix lies inside a buffer
/// of `buf_len` elements.
pub open spec fn matrix_fits(rows: int, cols: int, ld: int, buf_len: int) -> bool {
    forall|i: int, j: int|
        0 <= i < rows && 0 <= j < cols ==> 0 <= #[trigger] spec_entry_offset(i, j, ld) < buf_len
}

/// Every element of `op(A)`, which is `rows` by `cols`, lies inside a buffer
/// of `buf_len` elements.
pub open spec fn operand_fits(mode: Mode, rows: int, cols: int, ld: int, buf_len: int) -> bool {
    forall|i: int, j: int|
        0 <= i < rows && 0 <= j < cols ==> 0 <= #[trigger] spec_op_offset(mode, i, j, ld) < buf_len
}

/// Every element of a vector of `len` elements lies inside a buffer of
/// `buf_len` elements.
pub open spec fn vector_fits(len: int, inc: int, buf_len: int) -> bool {
    forall|i: int| 0 <= i < len ==> 0 <= #[trigger] spec_element_offset(i, len, inc) < buf_len
}

/// The leading dimension is at least the number of stored rows, and at
/// least one.
pub open spec fn leading_dimension_ok(rows: int, ld: int) -> bool {
    ld >= 1 && ld >= rows
}

/// Length of the shortest buffer that holds a stored `rows` by `cols`
/// matrix with leading dimension `ld`.
pub open spec fn spec_matrix_span(rows: int, cols: int, ld: int) -> int {
    if rows <= 0 || cols <= 0 {
        0
    } else {
        (cols - 1) * ld + rows
    }
}

/// Length of the shortest buffer that holds a vector of `len` elements at
/// increment `inc`.
pub open spec fn spec_vector_span(len: int, inc: int) -> int {
    if len <= 0 {
        0
    } else if inc >= 0 {
        1 + (len - 1) * inc
    } else {
        1 + (len - 1) * (-inc)
    }
}

proof fn lemma_mul_le(a: int, b: int, c: int)
    by (nonlinear_arith)
    requires
        0 <= a <= b,
        0 <= c,
    ensures
        0 <= a * c <= b * c,
        0 <= c * a <= c * b,
{
}

proof fn lemma_mul_lt(a: int, b: int, c: int)
    by (nonlinear_arith)
    requires
        0 <= a < b,
        0 < c,
    ensures
        a * c + c <= b * c,
{
}

/// A buffer holds a stored matrix exactly when it is at least as long as
/// the matrix's span: the span is the least sufficient length.
pub proof fn lemma_matrix_span_is_least(rows: int, cols: int, ld: int, buf_len: int)
    requires
        ld >= 0,
        buf_len >= 0,
    ensures
        matrix_fits(rows, cols, ld, buf_len) <==> spec_matrix_span(rows, cols, ld) <= buf_len,
{
    if rows > 0 && cols > 0 {
        if matrix_fits(rows, cols, ld, buf_len) {
            assert(spec_entry_offset(rows - 1, cols - 1, ld) < buf_len);
        }
        if spec_matrix_span(rows, cols, ld) <= buf_len {
            assert forall|i: int, j: int| 0 <= i < rows && 0 <= j < cols implies 0
                <= #[trigger] spec_entry_offset(i, j, ld) < buf_len by {
                lemma_mul_le(j, cols - 1, ld);
            }
        }
    }
}

/// The same for an operand read through a transpose mode: what counts is
/// the span of the matrix as it is stored.
pub proof fn lemma_operand_span_is_least(mode: Mode, rows: int, cols: int, ld: int, buf_len: int)
    requires
        ld >= 0,
        buf_len >= 0,
    ensures
        operand_fits(mode, rows, cols, ld, buf_len) <==> spec_matrix_span(
            spec_stored_rows(mode, rows, cols),
            spec_stored_cols(mode, rows, cols),
            ld,
        ) <= buf_len,
{
    let sr = spec_stored_rows(mode, rows, cols);
    let sc = spec_stored_cols(mode, rows, cols);
    lemma_matrix_span_is_least(sr, sc, ld, buf_len);
    if operand_fits(mode, rows, cols, ld, buf_len) {
        assert forall|i: int, j: int| 0 <= i < sr && 0 <= j < sc implies 0
            <= #[trigger] spec_entry_offset(i, j, ld) < buf_len by {
            match mode {
                Mode::Normal => {
                    assert(spec_op_offset(mode, i, j, ld) == spec_entry_offset(i, j, ld));
                },
                Mode::Transposed => {
                    assert(spec_op_offset(mode, j, i, ld) == spec_entry_offset(i, j, ld));
                },
            }
        }
    }
    if matrix_fits(sr, sc, ld, buf_len) {
        assert forall|i: int, j: int| 0 <= i < rows && 0 <= j < cols implies 0
            <= #[trigger] spec_op_offset(mode, i, j, ld) < buf_len by {
            match mode {
                Mode::Normal => {
                    assert(spec_op_offset(mode, i, j, ld) == spec_entry_offset(i, j, ld));
                },
                Mode::Transposed => {
                    assert(spec_op_offset(mode, i, j, ld) == spec_entry_offset(j, i, ld));
                },
            }
        }
    }
}

/// A buffer holds a strided vector exactly when it is at least as long as
/// the vector's span.
pub proof fn lemma_vector_span_is_least(len: int, inc: int, buf_len: int)
    requires
        buf_len >= 0,
    ensures
        vector_fits(len, inc, buf_len) <==> spec_vector_span(len, inc) <= buf_len,
{
    if len > 0 {
        let step = if inc >= 0 { inc } else { -inc };
        if vector_fits(len, inc, buf_len) {
            if inc >= 0 {
                assert(spec_element_offset(len - 1, len, inc) < buf_len);
            } else {
                assert(spec_element_offset(0, len, inc) < buf_len);
            }
        }
        if spec_vector_span(len, inc) <= buf_len {
            assert forall|i: int| 0 <= i < len implies 0 <= #[trigger] spec_element_offset(
                i,
                len,
                inc,
            ) < buf_len by {
                if inc >= 0 {
                    lemma_mul_le(i, len - 1, step);
                } else {
                    lemma_mul_le(len - 1 - i, len - 1, step);
                }
            }
        }
    }
}

/// With a leading dimension of at least the row count, no two elements of
/// a stored matrix share an offset: columns do not overlap.
pub proof fn lemma_entries_do_not_alias(rows: int, ld: int, i1: int, j1: int, i2: int, j2: int)
    requires
        ld >= rows,
        0 <= i1 < rows,
        0 <= i2 < rows,
        0 <= j1,
        0 <= j2,
        spec_entry_offset(i1, j1, ld) == spec_entry_offset(i2, j2, ld),
    ensures
        i1 == i2,
        j1 == j2,
{
    if j1 < j2 {
        lemma_mul_lt(j1, j2, ld);
    } else if j2 < j1 {
        lemma_mul_lt(j2, j1, ld);
    }
}

/// With a non-zero increment, no two elements of a vector share an offset.
pub proof fn lemma_elements_do_not_alias(len: int, inc: int, i1: int, i2: int)
    requires
        inc != 0,
        0 <= i1 < len,
        0 <= i2 < len,
        spec_element_offset(i1, len, inc) == spec_element_offset(i2, len, inc),
    ensures
        i1 == i2,
{
    let step = if inc >= 0 { inc } else { -inc };
    let (k1, k2) = if inc >= 0 { (i1, i2) } else { (len - 1 - i1, len - 1 - i2) };
    if k1 < k2 {
        lemma_mul_lt(k1, k2, step);
    } else if k2 < k1 {
        lemma_mul_lt(k2, k1, step);
    }
}

/// A negative increment reads the same buffer as the positive one, in
/// reverse order.
pub proof fn lemma_negative_increment_reverses(i: int, len: int, inc: int)
    requires
        inc > 0,
    ensures
        spec_element_offset(i, len, -inc) == spec_element_offset(len - 1 - i, len, inc),
        spec_vector_span(len, -inc) == spec_vector_span(len, inc),
{
}

proof fn lemma_mul_distributes(a: int, b: int, c: int)
    by (nonlinear_arith)
    ensures
        (a + b) * c == a * c + b * c,
{
}

/// A block of a stored matrix is itself a stored matrix with the same
/// leading dimension, in the part of the buffer that begins at the block's
/// first element: its elements are the matrix's, and it ends no later than
/// the matrix does.
pub proof fn lemma_block_of_matrix(
    rows: int,
    cols: int,
    ld: int,
    first_row: int,
    first_col: int,
    block_rows: int,
    block_cols: int,
    i: int,
    j: int,
)
    requires
        ld >= 0,
        0 <= first_row,
        0 <= first_col,
        first_row + block_rows <= rows,
        first_col + block_cols <= cols,
        0 <= i < block_rows,
        0 <= j < block_cols,
    ensures
        spec_entry_offset(first_row, first_col, ld) + spec_entry_offset(i, j, ld)
            == spec_entry_offset(first_row + i, first_col + j, ld),
        spec_entry_offset(first_row, first_col, ld) + spec_matrix_span(block_rows, block_cols, ld)
            <= spec_matrix_span(rows, cols, ld),
{
    lemma_mul_distributes(first_col, j, ld);
    lemma_mul_distributes(first_col, block_cols - 1, ld);
    lemma_mul_le(first_col + block_cols - 1, cols - 1, ld);
}

/// Offset of element `(i, j)` of a column-major matrix.
pub fn entry_offset(i: i32, j: i32, ld: i32) -> (off: u64)
    requires
        0 <= i,
        0 <= j,
        0 <= ld,
    ensures
        off == spec_entry_offset(i as int, j as int, ld as int),
{
    proof {
        lemma_mul_le(j as int, 0x7fff_ffff, ld as int);
        lemma_mul_le(ld as int, 0x7fff_ffff, 0x7fff_ffff);
    }
    i as u64 + j as u64 * ld as u64
}

/// Offset of element `(i, j)` of `op(A)`.
pub fn op_offset(mode: Mode, i: i32, j: i32, ld: i32) -> (off: u64)
    requires
        0 <= i,
        0 <= j,
        0 <= ld,
    ensures
        off == spec_op_offset(mode, i as int, j as int, ld as int),
{
    match mode {
        Mode::Normal => entry_offset(i, j, ld),
        Mode::Transposed => entry_offset(j, i, ld),
    }
}

/// Offset of element `i` of a vector of `len` elements at increment `inc`.
pub fn element_offset(i: i32, len: i32, inc: i32) -> (off: u64)
    requires
        0 <= i < len,
    ensures
        off == spec_element_offset(i as int, len as int, inc as int),
{
    if inc >= 0 {
        proof {
            lemma_mul_le(i as int, 0x7fff_ffff, inc as int);
            lemma_mul_le(inc as int, 0x7fff_ffff, 0x7fff_ffff);
        }
        i as u64 * inc as u64
    } else {
        let back: u64 = (len - 1 - i) as u64;
        let step: u64 = (-(inc as i64)) as u64;
        proof {
            lemma_mul_le(back as int, 0x7fff_ffff, step as int);
            lemma_mul_le(step as int, 0x8000_0000, 0x7fff_ffff);
        }
        back * step
    }
}

/// Length of the shortest buffer that holds a stored `rows` by `cols`
/// matrix with leading dimension `ld`.
pub fn matrix_span(rows: i32, cols: i32, ld: i32) -> (span: u64)
    requires
        0 <= ld,
    ensures
        span == spec_matrix_span(rows as int, cols as int, ld as int),
{
    if rows <= 0 || cols <= 0 {
        0
    } else {
        proof {
            lemma_mul_le(cols - 1, 0x7fff_ffff, ld as int);
            lemma_mul_le(ld as int, 0x7fff_ffff, 0x7fff_ffff);
        }
        (cols - 1) as u64 * ld as u64 + rows as u64
    }
}

/// Length of the shortest buffer that holds a vector of `len` elements at
/// increment `inc`.
pub fn vector_span(len: i32, inc: i32) -> (span: u64)
    ensures
        span == spec_vector_span(len as int, inc as int),
{
    if len <= 0 {
        0
    } else {
        let step: u64 = if inc >= 0 {
            inc as u64
        } else {
            (-(inc as i64)) as u64
        };
        proof {
            lemma_mul_le(len - 1, 0x7fff_ffff, step as int);
            lemma_mul_le(step as int, 0x8000_0000, 0x7fff_ffff);
        }
        1 + (len - 1) as u64 * step
    }
}

} // verus!
