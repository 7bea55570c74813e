use blas_core::error::{LayoutError, Operand};
use blas_core::gemm::GemmLayout;
use blas_core::gemv::GemvLayout;
use blas_core::layout::{element_offset, entry_offset, matrix_span, op_offset, vector_span};
use blas_core::mode::{Mode, NORMAL, TRANSPOSED};

fn gemv_layout(mode: Mode, m: i32, n: i32, lda: i32, incx: i32, incy: i32) -> GemvLayout {
    GemvLayout { mode, m, n, lda, incx, incy }
}

fn gemm_layout(
    mode_a: Mode,
    mode_b: Mode,
    m: i32,
    n: i32,
    k: i32,
    lda: i32,
    ldb: i32,
    ldc: i32,
) -> GemmLayout {
    GemmLayout { mode_a, mode_b, m, n, k, lda, ldb, ldc }
}

#[test]
fn mode_codes_are_the_letters() {
    assert_eq!(NORMAL, b'N' as i8);
    assert_eq!(TRANSPOSED, b'T' as i8);
    assert_eq!(Mode::Normal.code(), 78);
    assert_eq!(Mode::Transposed.code(), 84);
}

#[test]
fn mode_from_code_round_trip() {
    assert_eq!(Mode::from_code(Mode::Normal.code()), Some(Mode::Normal));
    assert_eq!(Mode::from_code(Mode::Transposed.code()), Some(Mode::Transposed));
    assert_eq!(Mode::from_code(b'n' as i8), None);
    assert_eq!(Mode::from_code(0), None);
    assert_eq!(Mode::from_code(-1), None);
}

#[test]
fn entry_offset_is_column_major() {
    assert_eq!(entry_offset(0, 0, 5), 0);
    assert_eq!(entry_offset(1, 0, 5), 1);
    assert_eq!(entry_offset(0, 1, 5), 5);
    assert_eq!(entry_offset(3, 2, 5), 13);
    assert_eq!(entry_offset(i32::MAX, i32::MAX, i32::MAX), 4611686016279904256);
}

#[test]
fn op_offset_swaps_roles_when_transposed() {
    assert_eq!(op_offset(Mode::Normal, 1, 2, 4), 9);
    assert_eq!(op_offset(Mode::Transposed, 1, 2, 4), 6);
    assert_eq!(op_offset(Mode::Transposed, 2, 1, 4), op_offset(Mode::Normal, 1, 2, 4));
}

#[test]
fn element_offset_forward_and_reverse() {
    assert_eq!(element_offset(0, 4, 3), 0);
    assert_eq!(element_offset(2, 4, 3), 6);
    assert_eq!(element_offset(0, 4, -3), 9);
    assert_eq!(element_offset(3, 4, -3), 0);
    assert_eq!(element_offset(1, 4, -1), 2);
    assert_eq!(element_offset(0, 2, i32::MIN), 2147483648);
    assert_eq!(element_offset(5, 9, 0), 0);
}

#[test]
fn matrix_span_exact_values() {
    assert_eq!(matrix_span(2, 3, 2), 6);
    assert_eq!(matrix_span(2, 3, 4), 10);
    assert_eq!(matrix_span(0, 3, 4), 0);
    assert_eq!(matrix_span(2, 0, 4), 0);
    assert_eq!(matrix_span(-1, 3, 4), 0);
    assert_eq!(matrix_span(1, 1, 1), 1);
    assert_eq!(matrix_span(i32::MAX, i32::MAX, i32::MAX), 4611686014132420609);
}

#[test]
fn vector_span_exact_values() {
    assert_eq!(vector_span(3, 1), 3);
    assert_eq!(vector_span(3, 2), 5);
    assert_eq!(vector_span(3, -2), 5);
    assert_eq!(vector_span(0, 7), 0);
    assert_eq!(vector_span(-4, 7), 0);
    assert_eq!(vector_span(1, 100), 1);
    assert_eq!(vector_span(i32::MAX, i32::MIN), 4611686014132420609);
}

#[test]
fn span_is_one_past_the_last_offset() {
    let (rows, cols, ld) = (3, 4, 7);
    let mut last: u64 = 0;
    for j in 0..cols {
        for i in 0..rows {
            last = last.max(entry_offset(i, j, ld));
        }
    }
    assert_eq!(matrix_span(rows, cols, ld), last + 1);
    for inc in [-3, -1, 1, 2, 5] {
        let mut last: u64 = 0;
        for i in 0..6 {
            last = last.max(element_offset(i, 6, inc));
        }
        assert_eq!(vector_span(6, inc), last + 1);
    }
}

#[test]
fn offsets_do_not_alias() {
    let (rows, cols, ld) = (3, 4, 3);
    let mut seen = vec![false; matrix_span(rows, cols, ld) as usize];
    for j in 0..cols {
        for i in 0..rows {
            let off = entry_offset(i, j, ld) as usize;
            assert!(!seen[off]);
            seen[off] = true;
        }
    }
    assert!(seen.iter().all(|s| *s));
    let mut seen = vec![false; vector_span(5, -2) as usize];
    for i in 0..5 {
        let off = element_offset(i, 5, -2) as usize;
        assert!(!seen[off]);
        seen[off] = true;
    }
}

#[test]
fn gemv_lengths_follow_the_mode() {
    let normal = gemv_layout(Mode::Normal, 2, 3, 2, 1, 1);
    assert_eq!(normal.input_len(), 3);
    assert_eq!(normal.output_len(), 2);
    let transposed = gemv_layout(Mode::Transposed, 2, 3, 2, 1, 1);
    assert_eq!(transposed.input_len(), 2);
    assert_eq!(transposed.output_len(), 3);
}

#[test]
fn gemv_check_accepts_exact_buffers() {
    assert_eq!(gemv_layout(Mode::Normal, 2, 3, 2, 1, 1).check(6, 3, 2), Ok(()));
    assert_eq!(gemv_layout(Mode::Transposed, 2, 3, 2, 1, 1).check(6, 2, 3), Ok(()));
    assert_eq!(gemv_layout(Mode::Normal, 2, 3, 5, -2, 3).check(12, 5, 4), Ok(()));
    assert_eq!(gemv_layout(Mode::Normal, 0, 0, 1, 1, 1).check(0, 0, 0), Ok(()));
    assert_eq!(gemv_layout(Mode::Normal, 0, 3, 1, 1, 1).check(0, 3, 0), Ok(()));
}

#[test]
fn gemv_check_reports_each_rule() {
    assert_eq!(
        gemv_layout(Mode::Normal, -1, -1, 0, 0, 0).check(0, 0, 0),
        Err(LayoutError::NegativeRows)
    );
    assert_eq!(
        gemv_layout(Mode::Normal, 2, -1, 0, 0, 0).check(0, 0, 0),
        Err(LayoutError::NegativeColumns)
    );
    assert_eq!(
        gemv_layout(Mode::Normal, 2, 3, 1, 0, 0).check(0, 0, 0),
        Err(LayoutError::LeadingDimension(Operand::A))
    );
    assert_eq!(
        gemv_layout(Mode::Normal, 0, 3, 0, 1, 1).check(0, 3, 0),
        Err(LayoutError::LeadingDimension(Operand::A))
    );
    assert_eq!(
        gemv_layout(Mode::Normal, 2, 3, 2, 0, 0).check(0, 0, 0),
        Err(LayoutError::ZeroIncrement(Operand::X))
    );
    assert_eq!(
        gemv_layout(Mode::Normal, 2, 3, 2, 1, 0).check(0, 0, 0),
        Err(LayoutError::ZeroIncrement(Operand::Y))
    );
    assert_eq!(
        gemv_layout(Mode::Normal, 2, 3, 2, 1, 1).check(5, 0, 0),
        Err(LayoutError::ShortBuffer(Operand::A))
    );
    assert_eq!(
        gemv_layout(Mode::Normal, 2, 3, 2, 1, 1).check(6, 2, 0),
        Err(LayoutError::ShortBuffer(Operand::X))
    );
    assert_eq!(
        gemv_layout(Mode::Normal, 2, 3, 2, 1, 1).check(6, 3, 1),
        Err(LayoutError::ShortBuffer(Operand::Y))
    );
    assert_eq!(
        gemv_layout(Mode::Transposed, 2, 3, 2, 1, 1).check(6, 3, 2),
        Err(LayoutError::ShortBuffer(Operand::Y))
    );
    assert_eq!(
        gemv_layout(Mode::Normal, 2, 3, 2, -2, 1).check(6, 4, 2),
        Err(LayoutError::ShortBuffer(Operand::X))
    );
}

#[test]
fn gemv_offsets_follow_the_layout() {
    let g = gemv_layout(Mode::Transposed, 2, 3, 4, -2, 3);
    assert_eq!(g.a_offset(2, 1), 9);
    assert_eq!(g.x_offset(0), 2);
    assert_eq!(g.x_offset(1), 0);
    assert_eq!(g.y_offset(2), 6);
    let h = gemv_layout(Mode::Normal, 2, 3, 4, 1, 1);
    assert_eq!(h.a_offset(1, 2), 9);
    assert_eq!(h.x_offset(2), 2);
    assert_eq!(h.y_offset(1), 1);
}

#[test]
fn gemm_stored_shapes_follow_the_modes() {
    let g = gemm_layout(Mode::Normal, Mode::Transposed, 2, 4, 3, 2, 4, 2);
    assert_eq!((g.a_rows(), g.a_cols()), (2, 3));
    assert_eq!((g.b_rows(), g.b_cols()), (4, 3));
    let h = gemm_layout(Mode::Transposed, Mode::Normal, 2, 4, 3, 3, 3, 2);
    assert_eq!((h.a_rows(), h.a_cols()), (3, 2));
    assert_eq!((h.b_rows(), h.b_cols()), (3, 4));
}

#[test]
fn gemm_check_accepts_exact_buffers() {
    assert_eq!(gemm_layout(Mode::Normal, Mode::Normal, 2, 4, 3, 2, 3, 2).check(6, 12, 8), Ok(()));
    assert_eq!(
        gemm_layout(Mode::Transposed, Mode::Transposed, 2, 4, 3, 3, 4, 2).check(6, 12, 8),
        Ok(())
    );
    assert_eq!(gemm_layout(Mode::Normal, Mode::Normal, 2, 4, 3, 5, 7, 3).check(12, 24, 11), Ok(()));
}

#[test]
fn gemm_check_reports_each_rule() {
    assert_eq!(
        gemm_layout(Mode::Normal, Mode::Normal, -1, -1, -1, 0, 0, 0).check(0, 0, 0),
        Err(LayoutError::NegativeRows)
    );
    assert_eq!(
        gemm_layout(Mode::Normal, Mode::Normal, 2, -1, -1, 0, 0, 0).check(0, 0, 0),
        Err(LayoutError::NegativeColumns)
    );
    assert_eq!(
        gemm_layout(Mode::Normal, Mode::Normal, 2, 4, -1, 0, 0, 0).check(0, 0, 0),
        Err(LayoutError::NegativeInner)
    );
    assert_eq!(
        gemm_layout(Mode::Normal, Mode::Normal, 2, 4, 3, 1, 0, 0).check(0, 0, 0),
        Err(LayoutError::LeadingDimension(Operand::A))
    );
    assert_eq!(
        gemm_layout(Mode::Transposed, Mode::Normal, 2, 4, 3, 2, 3, 2).check(6, 12, 8),
        Err(LayoutError::LeadingDimension(Operand::A))
    );
    assert_eq!(
        gemm_layout(Mode::Normal, Mode::Normal, 2, 4, 3, 2, 2, 0).check(0, 0, 0),
        Err(LayoutError::LeadingDimension(Operand::B))
    );
    assert_eq!(
        gemm_layout(Mode::Normal, Mode::Transposed, 2, 4, 3, 2, 3, 2).check(6, 12, 8),
        Err(LayoutError::LeadingDimension(Operand::B))
    );
    assert_eq!(
        gemm_layout(Mode::Normal, Mode::Normal, 2, 4, 3, 2, 3, 1).check(0, 0, 0),
        Err(LayoutError::LeadingDimension(Operand::C))
    );
    assert_eq!(
        gemm_layout(Mode::Normal, Mode::Normal, 2, 4, 3, 2, 3, 2).check(5, 0, 0),
        Err(LayoutError::ShortBuffer(Operand::A))
    );
    assert_eq!(
        gemm_layout(Mode::Normal, Mode::Normal, 2, 4, 3, 2, 3, 2).check(6, 11, 0),
        Err(LayoutError::ShortBuffer(Operand::B))
    );
    assert_eq!(
        gemm_layout(Mode::Normal, Mode::Normal, 2, 4, 3, 2, 3, 2).check(6, 12, 7),
        Err(LayoutError::ShortBuffer(Operand::C))
    );
}

#[test]
fn gemm_without_contraction_needs_no_input() {
    let g = gemm_layout(Mode::Normal, Mode::Transposed, 2, 4, 0, 2, 4, 2);
    assert_eq!(g.check(0, 0, 8), Ok(()));
    assert_eq!(g.check(100, 3, 8), Ok(()));
    assert_eq!(g.check(0, 0, 7), Err(LayoutError::ShortBuffer(Operand::C)));
}

#[test]
fn gemm_offsets_follow_the_layout() {
    let g = gemm_layout(Mode::Normal, Mode::Transposed, 2, 4, 3, 2, 4, 5);
    assert_eq!(g.a_offset(1, 2), 5);
    assert_eq!(g.b_offset(2, 3), 11);
    assert_eq!(g.c_offset(1, 3), 16);
}

#[test]
fn block_of_a_matrix_keeps_the_leading_dimension() {
    let (rows, cols, ld) = (4, 5, 6);
    let (first_row, first_col, block_rows, block_cols) = (1, 2, 2, 3);
    let start = entry_offset(first_row, first_col, ld);
    assert_eq!(start, 13);
    for j in 0..block_cols {
        for i in 0..block_rows {
            assert_eq!(
                start + entry_offset(i, j, ld),
                entry_offset(first_row + i, first_col + j, ld)
            );
        }
    }
    assert_eq!(matrix_span(block_rows, block_cols, ld), 14);
    assert_eq!(matrix_span(rows, cols, ld), 28);
    assert!(start + matrix_span(block_rows, block_cols, ld) <= matrix_span(rows, cols, ld));
    let g = gemv_layout(Mode::Normal, block_rows, block_cols, ld, 1, 1);
    assert_eq!(g.check(28 - start as usize, 3, 2), Ok(()));
}
