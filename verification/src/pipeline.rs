//! The separable two-dimensional transform: a kernel along the rows, a
//! transpose, a kernel along what were the columns, and a transpose back.

use vstd::prelude::*;
use crate::kernel::kernel_accepts;
use crate::kernel::kernel_computes;
use crate::kernel::lemma_rows_mapped_identity;
use crate::kernel::lemma_rows_of_function;
use crate::kernel::rows_mapped;
use crate::kernel::pass_fails;
use crate::kernel::rows_transformed;
use crate::kernel::transform_rows;
use crate::layout::lemma_transpose_involution;
use crate::layout::transposed;
use crate::shape::check_shape;
use crate::shape::ShapeMismatch;
use crate::strategy::Transpose;

verus! {

/// Why a two-dimensional transform did not take place.
#[derive(Debug, PartialEq, Eq)]
pub enum TransformError<E> {
    /// The matrix buffer does not hold `width * height` cells.
    Shape(ShapeMismatch),
    /// A kernel failed; its error is passed on as it came.
    Kernel(E),
}

/// One pass may turn the matrix `before`, of `rows` rows of `row_len` cells,
/// into `after`: `after` is the transpose of a matrix that holds an answer of
/// the kernel to each row of `before`.
pub open spec fn pass_relates<T, E, K: Fn(&[T]) -> Result<Vec<T>, E>>(
    kernel: K,
    before: Seq<T>,
    after: Seq<T>,
    row_len: nat,
    rows: nat,
) -> bool {
    exists|done: Seq<T>| #[trigger]
        rows_transformed::<T, E, K>(kernel, before, done, row_len, rows) && after == transposed(
            done,
            row_len,
            rows,
        )
}

/// The whole transform may turn the `width` by `height` matrix `before` into
/// `after`: a pass of the row kernel over the matrix, then a pass of the
/// column kernel over the `height` by `width` result of the first.
pub open spec fn transform_relates<
    T,
    E,
    R: Fn(&[T]) -> Result<Vec<T>, E>,
    C: Fn(&[T]) -> Result<Vec<T>, E>,
>(row_kernel: R, col_kernel: C, before: Seq<T>, after: Seq<T>, width: nat, height: nat) -> bool {
    exists|between: Seq<T>| #[trigger]
        pass_relates::<T, E, R>(row_kernel, before, between, width, height) && pass_relates::<
            T,
            E,
            C,
        >(col_kernel, between, after, height, width)
}

/// The two-dimensional transform of the `width` by `height` matrix `m` by
/// the function `f` along its rows and the function `g` along its columns.
pub open spec fn transform_of<T>(
    f: spec_fn(Seq<T>) -> Seq<T>,
    g: spec_fn(Seq<T>) -> Seq<T>,
    m: Seq<T>,
    width: nat,
    height: nat,
) -> Seq<T> {
    let along_rows = transposed(rows_mapped(f, m, width, height), width, height);
    transposed(rows_mapped(g, along_rows, height, width), height, width)
}

/// One pass of the transform: the kernel is applied to each of the `rows`
/// rows of `matrix`, of `row_len` cells each, the answers are collected in
/// `scratch`, and `scratch` is transposed back into `matrix`.
///
/// What `scratch` held before is discarded. A matrix buffer that does not
/// hold `row_len * rows` cells is refused before the kernel is called. Where
/// the kernel fails, its error is returned as it came. In both cases `matrix`
/// is left as it was.
pub fn transform_pass<T: Copy, E, K: Fn(&[T]) -> Result<Vec<T>, E>, X: Transpose>(
    kernel: &K,
    matrix: &mut [T],
    row_len: usize,
    rows: usize,
    scratch: &mut Vec<T>,
    transpose_impl: &X,
) -> (res: Result<(), TransformError<E>>)
    requires
        kernel_accepts::<T, E, K>(*kernel, row_len as nat),
    ensures
        res matches Err(TransformError::Shape(_)) <==> old(matrix)@.len() != row_len * rows,
        match res {
            Ok(()) => pass_relates::<T, E, K>(
                *kernel,
                old(matrix)@,
                final(matrix)@,
                row_len as nat,
                rows as nat,
            ),
            Err(TransformError::Shape(e)) => final(matrix)@ == old(matrix)@ && e == (ShapeMismatch {
                width: row_len,
                height: rows,
                input_len: old(matrix)@.len() as usize,
                output_len: old(matrix)@.len() as usize,
            }),
            Err(TransformError::Kernel(e)) => final(matrix)@ == old(matrix)@ && pass_fails::<
                T,
                E,
                K,
            >(*kernel, old(matrix)@, row_len as nat, rows as nat, e),
        },
{
    let len: usize = matrix.len();
    match check_shape(row_len, rows, len, len) {
        Ok(()) => {},
        Err(e) => {
            return Err(TransformError::Shape(e));
        },
    }
    match transform_rows(kernel, matrix, row_len, rows, scratch) {
        Ok(()) => {},
        Err(e) => {
            return Err(TransformError::Kernel(e));
        },
    }
    let ghost done = scratch@;
    match transpose_impl.transpose(row_len, rows, scratch.as_slice(), matrix) {
        Ok(()) => {},
        Err(e) => {
            return Err(TransformError::Shape(e));
        },
    }
    Ok(())
}

/// Applies `row_kernel` along the rows and `col_kernel` along the columns of
/// the `width` by `height` matrix `matrix`, in place.
///
/// The row kernel is handed each of the `height` rows; the answers are
/// transposed, so that the columns lie as rows; the column kernel is handed
/// each of these `width` rows; and the answers are transposed back. A matrix
/// buffer that does not hold `width * height` cells is refused before any
/// kernel is called. The first failure of a kernel ends the transform and is
/// returned as it came: after a failure of the row kernel the matrix is as it
/// was, after one of the column kernel it holds the result of the first pass.
pub fn transform_2d<
    T: Copy,
    E,
    R: Fn(&[T]) -> Result<Vec<T>, E>,
    C: Fn(&[T]) -> Result<Vec<T>, E>,
    X: Transpose,
>(
    row_kernel: &R,
    col_kernel: &C,
    matrix: &mut [T],
    width: usize,
    height: usize,
    transpose_impl: &X,
) -> (res: Result<(), TransformError<E>>)
    requires
        kernel_accepts::<T, E, R>(*row_kernel, width as nat),
        kernel_accepts::<T, E, C>(*col_kernel, height as nat),
    ensures
        res matches Err(TransformError::Shape(_)) <==> old(matrix)@.len() != width * height,
        match res {
            Ok(()) => transform_relates::<T, E, R, C>(
                *row_kernel,
                *col_kernel,
                old(matrix)@,
                final(matrix)@,
                width as nat,
                height as nat,
            ),
            Err(TransformError::Shape(e)) => final(matrix)@ == old(matrix)@ && e == (ShapeMismatch {
                width,
                height,
                input_len: old(matrix)@.len() as usize,
                output_len: old(matrix)@.len() as usize,
            }),
            Err(TransformError::Kernel(e)) => {
                ||| final(matrix)@ == old(matrix)@ && pass_fails::<T, E, R>(
                    *row_kernel,
                    old(matrix)@,
                    width as nat,
                    height as nat,
                    e,
                )
                ||| pass_relates::<T, E, R>(
                    *row_kernel,
                    old(matrix)@,
                    final(matrix)@,
                    width as nat,
                    height as nat,
                ) && pass_fails::<T, E, C>(
                    *col_kernel,
                    final(matrix)@,
                    height as nat,
                    width as nat,
                    e,
                )
            },
        },
{
    let len: usize = matrix.len();
    match check_shape(width, height, len, len) {
        Ok(()) => {},
        Err(e) => {
            return Err(TransformError::Shape(e));
        },
    }
    let mut scratch: Vec<T> = Vec::with_capacity(len);
    match transform_pass(row_kernel, matrix, width, height, &mut scratch, transpose_impl) {
        Ok(()) => {},
        Err(e) => {
            return Err(e);
        },
    }
    let ghost between = matrix@;
    proof {
        assert(between.len() == height * width) by (nonlinear_arith)
            requires
                between.len() == width * height,
        ;
    }
    match transform_pass(col_kernel, matrix, height, width, &mut scratch, transpose_impl) {
        Ok(()) => {},
        Err(TransformError::Kernel(e)) => {
            return Err(TransformError::Kernel(e));
        },
        Err(TransformError::Shape(e)) => {
            return Err(TransformError::Shape(e));
        },
    }
    assert(pass_relates::<T, E, R>(
        *row_kernel,
        old(matrix)@,
        between,
        width as nat,
        height as nat,
    ));
    Ok(())
}

/// Where the row kernel computes the function `f` and the column kernel the
/// function `g`, the transform can leave only one result: `f` applied to
/// each row, followed by `g` applied to each column.
pub proof fn lemma_transform_of_functions<
    T,
    E,
    R: Fn(&[T]) -> Result<Vec<T>, E>,
    C: Fn(&[T]) -> Result<Vec<T>, E>,
>(
    row_kernel: R,
    col_kernel: C,
    f: spec_fn(Seq<T>) -> Seq<T>,
    g: spec_fn(Seq<T>) -> Seq<T>,
    before: Seq<T>,
    after: Seq<T>,
    width: nat,
    height: nat,
)
    requires
        kernel_computes::<T, E, R>(row_kernel, f),
        kernel_computes::<T, E, C>(col_kernel, g),
        transform_relates::<T, E, R, C>(row_kernel, col_kernel, before, after, width, height),
    ensures
        after == transform_of(f, g, before, width, height),
{
    let between = choose|between: Seq<T>| #[trigger]
        pass_relates::<T, E, R>(row_kernel, before, between, width, height) && pass_relates::<
            T,
            E,
            C,
        >(col_kernel, between, after, height, width);
    let rows_done = choose|done: Seq<T>| #[trigger]
        rows_transformed::<T, E, R>(row_kernel, before, done, width, height) && between
            == transposed(done, width, height);
    let cols_done = choose|done: Seq<T>| #[trigger]
        rows_transformed::<T, E, C>(col_kernel, between, done, height, width) && after
            == transposed(done, height, width);
    lemma_rows_of_function::<T, E, R>(row_kernel, f, before, rows_done, width, height);
    lemma_rows_of_function::<T, E, C>(col_kernel, g, between, cols_done, height, width);
}

/// With kernels that answer every row with the row itself, the transform
/// leaves the matrix as it was.
pub proof fn lemma_identity_kernels_change_nothing<
    T,
    E,
    R: Fn(&[T]) -> Result<Vec<T>, E>,
    C: Fn(&[T]) -> Result<Vec<T>, E>,
>(row_kernel: R, col_kernel: C, before: Seq<T>, after: Seq<T>, width: nat, height: nat)
    requires
        before.len() == width * height,
        kernel_computes::<T, E, R>(row_kernel, |row: Seq<T>| row),
        kernel_computes::<T, E, C>(col_kernel, |row: Seq<T>| row),
        transform_relates::<T, E, R, C>(row_kernel, col_kernel, before, after, width, height),
    ensures
        after == before,
{
    let id = |row: Seq<T>| row;
    lemma_transform_of_functions::<T, E, R, C>(
        row_kernel,
        col_kernel,
        id,
        id,
        before,
        after,
        width,
        height,
    );
    lemma_rows_mapped_identity(before, width, height);
    let along_rows = transposed(before, width, height);
    assert(along_rows.len() == height * width) by (nonlinear_arith)
        requires
            along_rows.len() == width * height,
    ;
    lemma_rows_mapped_identity(along_rows, height, width);
    lemma_transpose_involution(before, width, height);
}

} // verus!
