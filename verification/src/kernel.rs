//! What the pipeline knows of a one-dimensional kernel: a function value that
//! is handed one row and answers with the transformed row or with an error.
//! The kernel is described by its own contract alone.

use vstd::prelude::*;
use crate::layout::lemma_position_coordinates;

verus! {

/// The `r`-th row of a row-major buffer whose rows hold `row_len` cells.
pub open spec fn row_of<T>(m: Seq<T>, row_len: nat, r: int) -> Seq<T> {
    m.subrange(r * row_len, (r + 1) * row_len)
}

/// The kernel can be called on every row of `row_len` cells, and a row that
/// it answers with has `row_len` cells too.
pub open spec fn kernel_accepts<T, E, K: Fn(&[T]) -> Result<Vec<T>, E>>(
    kernel: K,
    row_len: nat,
) -> bool {
    &&& forall|r: &[T]| r@.len() == row_len ==> #[trigger] call_requires(kernel, (r,))
    &&& forall|r: &[T], o: Vec<T>|
        r@.len() == row_len && #[trigger] call_ensures(kernel, (r,), Ok::<Vec<T>, E>(o))
            ==> o@.len() == row_len
}

/// The kernel may answer the row `row` with the row `out`.
pub open spec fn kernel_yields<T, E, K: Fn(&[T]) -> Result<Vec<T>, E>>(
    kernel: K,
    row: Seq<T>,
    out: Seq<T>,
) -> bool {
    exists|r: &[T], o: Vec<T>|
        r@ == row && o@ == out && #[trigger] call_ensures(kernel, (r,), Ok::<Vec<T>, E>(o))
}

/// The kernel may fail on the row `row` with the error `e`.
pub open spec fn kernel_fails<T, E, K: Fn(&[T]) -> Result<Vec<T>, E>>(
    kernel: K,
    row: Seq<T>,
    e: E,
) -> bool {
    exists|r: &[T]| r@ == row && #[trigger] call_ensures(kernel, (r,), Err::<Vec<T>, E>(e))
}

/// `output` holds, row for row, an answer of the kernel to each of the first
/// `rows` rows of `input`.
pub open spec fn rows_transformed<T, E, K: Fn(&[T]) -> Result<Vec<T>, E>>(
    kernel: K,
    input: Seq<T>,
    output: Seq<T>,
    row_len: nat,
    rows: nat,
) -> bool {
    &&& output.len() == row_len * rows
    &&& forall|r: int|
        0 <= r < rows ==> kernel_yields::<T, E, K>(
            kernel,
            #[trigger] row_of(input, row_len, r),
            row_of(output, row_len, r),
        )
}

/// The kernel may answer each of the first `rows` rows of `input`.
pub open spec fn rows_answered<T, E, K: Fn(&[T]) -> Result<Vec<T>, E>>(
    kernel: K,
    input: Seq<T>,
    row_len: nat,
    rows: nat,
) -> bool {
    exists|partial: Seq<T>| #[trigger]
        rows_transformed::<T, E, K>(kernel, input, partial, row_len, rows)
}

/// A pass over the rows of `input` may end in the error `e`: the kernel may
/// answer every row before some row of the matrix, and may fail on that row
/// with `e`.
pub open spec fn pass_fails<T, E, K: Fn(&[T]) -> Result<Vec<T>, E>>(
    kernel: K,
    input: Seq<T>,
    row_len: nat,
    rows: nat,
    e: E,
) -> bool {
    exists|failed: int|
        0 <= failed < rows && rows_answered::<T, E, K>(kernel, input, row_len, failed as nat)
            && kernel_fails::<T, E, K>(kernel, #[trigger] row_of(input, row_len, failed), e)
}

/// Every answer of the kernel is the value of `f` on the row it was handed:
/// the kernel computes the function `f`.
pub open spec fn kernel_computes<T, E, K: Fn(&[T]) -> Result<Vec<T>, E>>(
    kernel: K,
    f: spec_fn(Seq<T>) -> Seq<T>,
) -> bool {
    forall|r: &[T], o: Vec<T>| #[trigger]
        call_ensures(kernel, (r,), Ok::<Vec<T>, E>(o)) ==> o@ == f(r@)
}

/// The matrix that holds, row for row, the value of `f` on each of the
/// `rows` rows of `input`, of `row_len` cells each.
pub open spec fn rows_mapped<T>(
    f: spec_fn(Seq<T>) -> Seq<T>,
    input: Seq<T>,
    row_len: nat,
    rows: nat,
) -> Seq<T> {
    Seq::new(
        row_len * rows,
        |k: int| f(row_of(input, row_len, k / (row_len as int)))[k % (row_len as int)],
    )
}

/// Hands each of the `rows` rows of `input`, of `row_len` cells each, to the
/// kernel, in order, and collects the answers in `scratch`, whose earlier
/// content is discarded.
///
/// The first failure of the kernel ends the pass and is returned as it is.
pub(crate) fn transform_rows<T: Copy, E, K: Fn(&[T]) -> Result<Vec<T>, E>>(
    kernel: &K,
    input: &[T],
    row_len: usize,
    rows: usize,
    scratch: &mut Vec<T>,
) -> (res: Result<(), E>)
    requires
        input@.len() == row_len * rows,
        kernel_accepts::<T, E, K>(*kernel, row_len as nat),
    ensures
        match res {
            Ok(()) => rows_transformed::<T, E, K>(
                *kernel,
                input@,
                final(scratch)@,
                row_len as nat,
                rows as nat,
            ),
            Err(e) => pass_fails::<T, E, K>(*kernel, input@, row_len as nat, rows as nat, e),
        },
{
    scratch.clear();
    let len: usize = input.len();
    let mut r: usize = 0;
    while r < rows
        invariant
            r <= rows,
            len == row_len * rows,
            input@.len() == row_len * rows,
            kernel_accepts::<T, E, K>(*kernel, row_len as nat),
            rows_transformed::<T, E, K>(*kernel, input@, scratch@, row_len as nat, r as nat),
        decreases rows - r,
    {
        proof {
            lemma_row_bounds(r as int, rows as int, row_len as int);
        }
        let start: usize = r * row_len;
        let row: &[T] = &input[start..start + row_len];
        let ghost before = scratch@;
        assert(before.len() == r * row_len) by (nonlinear_arith)
            requires
                before.len() == row_len * r,
        ;
        match kernel(row) {
            Ok(out) => {
                let mut i: usize = 0;
                while i < row_len
                    invariant
                        i <= row_len,
                        out@.len() == row_len,
                        scratch@ == before + out@.subrange(0, i as int),
                    decreases row_len - i,
                {
                    scratch.push(out[i]);
                    i += 1;
                }
                proof {
                    assert(row_of(scratch@, row_len as nat, r as int) =~= out@);
                    assert(scratch@.len() == row_len * (r + 1)) by (nonlinear_arith)
                        requires
                            scratch@.len() == r * row_len + row_len,
                    ;
                    assert forall|p: int| 0 <= p < r + 1 implies kernel_yields::<T, E, K>(
                        *kernel,
                        #[trigger] row_of(input@, row_len as nat, p),
                        row_of(scratch@, row_len as nat, p),
                    ) by {
                        if p < r {
                            lemma_row_bounds(p, r as int, row_len as int);
                            assert(row_of(scratch@, row_len as nat, p) =~= row_of(
                                before,
                                row_len as nat,
                                p,
                            ));
                        }
                    }
                }
            },
            Err(e) => {
                proof {
                    assert(kernel_fails::<T, E, K>(
                        *kernel,
                        row_of(input@, row_len as nat, r as int),
                        e,
                    ));
                }
                return Err(e);
            },
        }
        r += 1;
    }
    Ok(())
}

/// The `r`-th of `rows` rows of `row_len` cells begins and ends inside the
/// buffer.
pub proof fn lemma_row_bounds(r: int, rows: int, row_len: int)
    by (nonlinear_arith)
    requires
        0 <= r < rows,
        0 <= row_len,
    ensures
        0 <= r * row_len,
        (r + 1) * row_len == r * row_len + row_len,
        (r + 1) * row_len <= rows * row_len,
        (r + 1) * row_len <= row_len * rows,
{
}

/// A pass of a kernel that computes `f` can leave only one result: the
/// matrix of the values of `f` on the rows.
pub proof fn lemma_rows_of_function<T, E, K: Fn(&[T]) -> Result<Vec<T>, E>>(
    kernel: K,
    f: spec_fn(Seq<T>) -> Seq<T>,
    input: Seq<T>,
    output: Seq<T>,
    row_len: nat,
    rows: nat,
)
    requires
        kernel_computes::<T, E, K>(kernel, f),
        rows_transformed::<T, E, K>(kernel, input, output, row_len, rows),
    ensures
        output == rows_mapped(f, input, row_len, rows),
{
    let n: int = row_len as int;
    let mapped = rows_mapped(f, input, row_len, rows);
    assert forall|k: int| 0 <= k < output.len() implies output[k] == mapped[k] by {
        assert(0 < n) by (nonlinear_arith)
            requires
                0 <= k < n * rows,
                0 <= n,
                0 <= rows,
        ;
        lemma_position_coordinates(k, n, rows as int);
        let r: int = k / n;
        lemma_row_bounds(r, rows as int, n);
        assert(kernel_yields::<T, E, K>(
            kernel,
            row_of(input, row_len, r),
            row_of(output, row_len, r),
        ));
        assert(row_of(output, row_len, r)[k % n] == output[k]);
    }
}

/// A matrix whose rows are all mapped to themselves is unchanged.
pub proof fn lemma_rows_mapped_identity<T>(input: Seq<T>, row_len: nat, rows: nat)
    requires
        input.len() == row_len * rows,
    ensures
        rows_mapped(|row: Seq<T>| row, input, row_len, rows) == input,
{
    let n: int = row_len as int;
    let mapped = rows_mapped(|row: Seq<T>| row, input, row_len, rows);
    assert forall|k: int| 0 <= k < input.len() implies mapped[k] == input[k] by {
        assert(0 < n) by (nonlinear_arith)
            requires
                0 <= k < n * rows,
                0 <= n,
                0 <= rows,
        ;
        lemma_position_coordinates(k, n, rows as int);
        let r: int = k / n;
        lemma_row_bounds(r, rows as int, n);
        assert(row_of(input, row_len, r)[k % n] == input[k]);
    }
}

} // verus!
