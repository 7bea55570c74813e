//! What the two products compute, in exact arithmetic over the integers.
//! The numerical kernels work in floating point and agree with this up to
//! rounding; the laws below are those of the exact products.

use vstd::prelude::*;
use crate::gemm::GemmLayout;
use crate::gemv::{holds_transpose, GemvLayout};
use crate::layout::{lemma_elements_do_not_alias, lemma_entries_do_not_alias};

verus! {

/// The first `len` terms of row `i` of `op(A)` times `x`.
pub open spec fn gemv_dot(g: GemvLayout, a: Seq<int>, x: Seq<int>, i: int, len: int) -> int
    decreases len,
{
    if len <= 0 {
        0
    } else {
        gemv_dot(g, a, x, i, len - 1) + a[g.spec_a_offset(i, len - 1)] * x[g.spec_x_offset(
            len - 1,
        )]
    }
}

/// Element `i` of `alpha * op(A) * x + beta * y`.
pub open spec fn gemv_entry(
    g: GemvLayout,
    alpha: int,
    a: Seq<int>,
    x: Seq<int>,
    beta: int,
    y: Seq<int>,
    i: int,
) -> int {
    alpha * gemv_dot(g, a, x, i, g.spec_input_len()) + beta * y[g.spec_y_offset(i)]
}

/// Some element of the result vector lies at offset `p`.
pub open spec fn gemv_writes(g: GemvLayout, p: int) -> bool {
    exists|i: int| 0 <= i < g.spec_output_len() && #[trigger] g.spec_y_offset(i) == p
}

/// The index of the element of the result vector that lies at offset `p`.
pub open spec fn gemv_index_at(g: GemvLayout, p: int) -> int {
    choose|i: int| 0 <= i < g.spec_output_len() && #[trigger] g.spec_y_offset(i) == p
}

/// The buffer that the product leaves of `y`: each element of the result
/// vector holds its value, and the gaps between them are untouched.
pub open spec fn gemv_buffer(
    g: GemvLayout,
    alpha: int,
    a: Seq<int>,
    x: Seq<int>,
    beta: int,
    y: Seq<int>,
) -> Seq<int> {
    Seq::new(
        y.len(),
        |p: int|
            if gemv_writes(g, p) {
                gemv_entry(g, alpha, a, x, beta, y, gemv_index_at(g, p))
            } else {
                y[p]
            },
    )
}

/// The first `len` terms of row `i` of `op(A)` times column `j` of `op(B)`.
pub open spec fn gemm_dot(g: GemmLayout, a: Seq<int>, b: Seq<int>, i: int, j: int, len: int) -> int
    decreases len,
{
    if len <= 0 {
        0
    } else {
        gemm_dot(g, a, b, i, j, len - 1) + a[g.spec_a_offset(i, len - 1)] * b[g.spec_b_offset(
            len - 1,
            j,
        )]
    }
}

/// Element `(i, j)` of `alpha * op(A) * op(B) + beta * C`.
pub open spec fn gemm_entry(
    g: GemmLayout,
    alpha: int,
    a: Seq<int>,
    b: Seq<int>,
    beta: int,
    c: Seq<int>,
    i: int,
    j: int,
) -> int {
    alpha * gemm_dot(g, a, b, i, j, g.k as int) + beta * c[g.spec_c_offset(i, j)]
}

/// Some element of the result matrix lies at offset `p`.
pub open spec fn gemm_writes(g: GemmLayout, p: int) -> bool {
    exists|i: int, j: int|
        0 <= i < g.m && 0 <= j < g.n && #[trigger] g.spec_c_offset(i, j) == p
}

/// The row and column of the element of the result matrix that lies at
/// offset `p`.
pub open spec fn gemm_index_at(g: GemmLayout, p: int) -> (int, int) {
    choose|i: int, j: int| 0 <= i < g.m && 0 <= j < g.n && #[trigger] g.spec_c_offset(i, j) == p
}

/// The buffer that the product leaves of `c`: each element of the result
/// matrix holds its value, and the rows below it, up to the leading
/// dimension, are untouched.
pub open spec fn gemm_buffer(
    g: GemmLayout,
    alpha: int,
    a: Seq<int>,
    b: Seq<int>,
    beta: int,
    c: Seq<int>,
) -> Seq<int> {
    Seq::new(
        c.len(),
        |p: int|
            if gemm_writes(g, p) {
                gemm_entry(g, alpha, a, b, beta, c, gemm_index_at(g, p).0, gemm_index_at(g, p).1)
            } else {
                c[p]
            },
    )
}

/// In the buffer that a well-formed product leaves, element `i` of the
/// result vector is found at its offset: no other element overwrites it.
pub proof fn lemma_gemv_buffer_holds_entries(
    g: GemvLayout,
    alpha: int,
    a: Seq<int>,
    x: Seq<int>,
    beta: int,
    y: Seq<int>,
    i: int,
)
    requires
        g.well_formed(),
        0 <= i < g.spec_output_len(),
        0 <= g.spec_y_offset(i) < y.len(),
    ensures
        gemv_buffer(g, alpha, a, x, beta, y)[g.spec_y_offset(i)] == gemv_entry(
            g,
            alpha,
            a,
            x,
            beta,
            y,
            i,
        ),
{
    let p = g.spec_y_offset(i);
    assert(gemv_writes(g, p));
    lemma_elements_do_not_alias(g.spec_output_len(), g.incy as int, i, gemv_index_at(g, p));
}

/// In the buffer that a well-formed product leaves, element `(i, j)` of
/// the result matrix is found at its offset.
pub proof fn lemma_gemm_buffer_holds_entries(
    g: GemmLayout,
    alpha: int,
    a: Seq<int>,
    b: Seq<int>,
    beta: int,
    c: Seq<int>,
    i: int,
    j: int,
)
    requires
        g.well_formed(),
        0 <= i < g.m,
        0 <= j < g.n,
        0 <= g.spec_c_offset(i, j) < c.len(),
    ensures
        gemm_buffer(g, alpha, a, b, beta, c)[g.spec_c_offset(i, j)] == gemm_entry(
            g,
            alpha,
            a,
            b,
            beta,
            c,
            i,
            j,
        ),
{
    let p = g.spec_c_offset(i, j);
    assert(gemm_writes(g, p));
    let (i2, j2) = gemm_index_at(g, p);
    lemma_entries_do_not_alias(g.m as int, g.ldc as int, i, j, i2, j2);
}

/// With `alpha` one and `beta` zero, an element of the result is the plain
/// sum of products of a row of `op(A)` with `x`, whatever `y` held.
pub proof fn lemma_unit_product(g: GemvLayout, a: Seq<int>, x: Seq<int>, y: Seq<int>, i: int)
    ensures
        gemv_entry(g, 1, a, x, 0, y, i) == gemv_dot(g, a, x, i, g.spec_input_len()),
{
}

/// Without accumulation, the product with `alpha` is `alpha` times the
/// product with one: for zero and negative `alpha` too.
pub proof fn lemma_scaling(
    g: GemvLayout,
    alpha: int,
    a: Seq<int>,
    x: Seq<int>,
    y: Seq<int>,
    i: int,
)
    ensures
        gemv_entry(g, alpha, a, x, 0, y, i) == alpha * gemv_entry(g, 1, a, x, 0, y, i),
{
}

/// With `alpha` and `beta` one, the product adds to what `y` held the
/// result that it gives without accumulation.
pub proof fn lemma_accumulation(g: GemvLayout, a: Seq<int>, x: Seq<int>, y: Seq<int>, i: int)
    ensures
        gemv_entry(g, 1, a, x, 1, y, i) == gemv_entry(g, 1, a, x, 0, y, i) + y[g.spec_y_offset(i)],
{
}

/// With `alpha` zero the result is `beta * y`, whatever `A` and `x` hold.
pub proof fn lemma_zero_alpha(g: GemvLayout, a: Seq<int>, x: Seq<int>, beta: int, y: Seq<int>, i: int)
    ensures
        gemv_entry(g, 0, a, x, beta, y, i) == beta * y[g.spec_y_offset(i)],
{
}

/// With `beta` zero the result does not depend on what `y` held.
pub proof fn lemma_zero_beta(
    g: GemvLayout,
    alpha: int,
    a: Seq<int>,
    x: Seq<int>,
    y: Seq<int>,
    z: Seq<int>,
    i: int,
)
    ensures
        gemv_entry(g, alpha, a, x, 0, y, i) == gemv_entry(g, alpha, a, x, 0, z, i),
{
}

/// The same two rules for the matrix-matrix product: with `alpha` zero an
/// element is `beta` times what `C` held, and with `beta` zero it does not
/// depend on what `C` held.
pub proof fn lemma_gemm_zero_coefficients(
    g: GemmLayout,
    alpha: int,
    a: Seq<int>,
    b: Seq<int>,
    beta: int,
    c: Seq<int>,
    d: Seq<int>,
    i: int,
    j: int,
)
    ensures
        gemm_entry(g, 0, a, b, beta, c, i, j) == beta * c[g.spec_c_offset(i, j)],
        gemm_entry(g, alpha, a, b, 0, c, i, j) == gemm_entry(g, alpha, a, b, 0, d, i, j),
{
}

/// The sums of a product and of the product of the other mode on the
/// stored transpose agree term by term.
pub proof fn lemma_dot_of_transpose(
    g: GemvLayout,
    a: Seq<int>,
    t: Seq<int>,
    ldt: i32,
    x: Seq<int>,
    i: int,
    len: int,
)
    requires
        holds_transpose(t, ldt as int, a, g.lda as int, g.m as int, g.n as int),
        0 <= i < g.spec_output_len(),
        len <= g.spec_input_len(),
    ensures
        gemv_dot(g, a, x, i, len) == gemv_dot(g.swapped(ldt), t, x, i, len),
    decreases len,
{
    if len > 0 {
        lemma_dot_of_transpose(g, a, t, ldt, x, i, len - 1);
        g.lemma_reads_transpose(a, t, ldt, i, len - 1);
        assert(g.swapped(ldt).spec_x_offset(len - 1) == g.spec_x_offset(len - 1));
    }
}

/// The transposed product on `A` is the normal product, with `m` and `n`
/// exchanged, on the stored transpose of `A`; and the other way round.
pub proof fn lemma_transpose(
    g: GemvLayout,
    alpha: int,
    a: Seq<int>,
    t: Seq<int>,
    ldt: i32,
    x: Seq<int>,
    beta: int,
    y: Seq<int>,
    i: int,
)
    requires
        holds_transpose(t, ldt as int, a, g.lda as int, g.m as int, g.n as int),
        0 <= i < g.spec_output_len(),
    ensures
        gemv_entry(g, alpha, a, x, beta, y, i) == gemv_entry(
            g.swapped(ldt),
            alpha,
            t,
            x,
            beta,
            y,
            i,
        ),
{
    lemma_dot_of_transpose(g, a, t, ldt, x, i, g.spec_input_len());
    assert(g.swapped(ldt).spec_y_offset(i) == g.spec_y_offset(i));
}

/// A matrix-matrix product without contraction terms and with `beta` one
/// leaves `C` as it was, whatever `alpha`, `A` and `B` are.
pub proof fn lemma_empty_contraction_keeps_c(
    g: GemmLayout,
    alpha: int,
    a: Seq<int>,
    b: Seq<int>,
    c: Seq<int>,
)
    requires
        g.k == 0,
    ensures
        gemm_buffer(g, alpha, a, b, 1, c) == c,
{
    assert forall|p: int| 0 <= p < c.len() implies gemm_buffer(g, alpha, a, b, 1, c)[p]
        == c[p] by {
        if gemm_writes(g, p) {
            let (i, j) = gemm_index_at(g, p);
            assert(gemm_entry(g, alpha, a, b, 1, c, i, j) == c[p]);
        }
    }
    assert(gemm_buffer(g, alpha, a, b, 1, c) =~= c);
}

} // verus!
