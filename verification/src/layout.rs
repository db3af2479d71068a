//! The mathematical model of a row-major matrix and of its transpose.

use vstd::prelude::*;
use vstd::arithmetic::div_mod::lemma_fundamental_div_mod;
use vstd::arithmetic::div_mod::lemma_fundamental_div_mod_converse;

verus! {

/// Position of the cell in column `x` and row `y` inside a row-major buffer
/// whose rows hold `row_len` cells each.
pub open spec fn offset(x: int, y: int, row_len: int) -> int {
    x + y * row_len
}

/// The transpose of the `width` by `height` matrix `m`.
///
/// The result is a `height` by `width` matrix: the cell at position `k` of
/// the result lies in its column `k % height` and its row `k / height`, and
/// holds what `m` has in column `k / height` and row `k % height`.
pub open spec fn transposed<T>(m: Seq<T>, width: nat, height: nat) -> Seq<T> {
    Seq::new(
        width * height,
        |k: int| m[offset(k / (height as int), k % (height as int), width as int)],
    )
}

/// Whether `out` is a transpose of the `width` by `height` matrix `m`, said
/// cell by cell: `out` has as many cells as the matrix, and the cell in column
/// `x` and row `y` of `m` is found in column `y` and row `x` of `out`.
pub open spec fn is_transpose_of<T>(out: Seq<T>, m: Seq<T>, width: nat, height: nat) -> bool {
    &&& out.len() == width * height
    &&& forall|x: int, y: int|
        0 <= x < width && 0 <= y < height ==> #[trigger] out[offset(y, x, height as int)]
            == m[offset(x, y, width as int)]
}

/// A cell inside the matrix has a position inside the buffer.
pub proof fn lemma_offset_in_range(x: int, y: int, width: int, height: int)
    by (nonlinear_arith)
    requires
        0 <= x < width,
        0 <= y < height,
    ensures
        0 <= offset(x, y, width) < width * height,
        y * width <= offset(x, y, width) < (y + 1) * width,
{
}

/// A position is taken apart into the coordinates it was made of.
pub proof fn lemma_offset_split(x: int, y: int, row_len: int)
    requires
        0 <= x < row_len,
    ensures
        offset(x, y, row_len) / row_len == y,
        offset(x, y, row_len) % row_len == x,
{
    lemma_fundamental_div_mod_converse(offset(x, y, row_len), row_len, y, x);
}

/// Every position inside the buffer is that of exactly one cell of the
/// matrix: its column is the remainder and its row the quotient by the row
/// length.
pub proof fn lemma_position_coordinates(k: int, row_len: int, rows: int)
    requires
        0 < row_len,
        0 <= k < row_len * rows,
    ensures
        0 <= k % row_len < row_len,
        0 <= k / row_len < rows,
        offset(k % row_len, k / row_len, row_len) == k,
{
    lemma_fundamental_div_mod(k, row_len);
    let q: int = k / row_len;
    let r: int = k % row_len;
    assert(row_len * q == q * row_len) by (nonlinear_arith);
    assert(0 <= q < rows) by (nonlinear_arith)
        requires
            k == q * row_len + r,
            0 <= r < row_len,
            0 <= k < row_len * rows,
    ;
}

/// The cell in column `x` and row `y` of a `width` by `height` matrix has a
/// position in the matrix and one in its transpose, both inside the buffer,
/// and the latter leads back to `x` and `y`.
pub proof fn lemma_cell_positions(x: int, y: int, width: int, height: int)
    requires
        0 <= x < width,
        0 <= y < height,
    ensures
        0 <= offset(x, y, width) < width * height,
        0 <= offset(y, x, height) < width * height,
        0 <= x * height <= offset(y, x, height),
        0 <= y * width <= offset(x, y, width),
        offset(y, x, height) / height == x,
        offset(y, x, height) % height == y,
{
    lemma_offset_in_range(x, y, width, height);
    lemma_offset_in_range(y, x, height, width);
    lemma_offset_split(y, x, height);
    assert(height * width == width * height) by (nonlinear_arith);
    assert(0 <= x * height && 0 <= y * width) by (nonlinear_arith)
        requires
            0 <= x,
            0 <= y,
            0 < width,
            0 < height,
    ;
}

/// Every position `k` in the transpose of a `width` by `height` matrix is
/// that of one cell: it lies in column `k % height` and row `k / height` of
/// the transpose.
pub proof fn lemma_transposed_position(k: int, width: nat, height: nat)
    requires
        0 <= k < width * height,
    ensures
        0 < height,
        0 <= k % (height as int) < height,
        0 <= k / (height as int) < width,
        offset(k % (height as int), k / (height as int), height as int) == k,
{
    let w: int = width as int;
    let h: int = height as int;
    assert(0 < h) by (nonlinear_arith)
        requires
            0 <= k < w * h,
            0 <= h,
            0 <= w,
    ;
    lemma_position_coordinates(k, h, w);
}

/// The transpose holds the cell of column `x` and row `y` in its column `y`
/// and row `x`.
pub proof fn lemma_transposed_cell<T>(m: Seq<T>, width: nat, height: nat, x: int, y: int)
    requires
        0 <= x < width,
        0 <= y < height,
    ensures
        transposed(m, width, height).len() == width * height,
        0 <= offset(y, x, height as int) < width * height,
        transposed(m, width, height)[offset(y, x, height as int)] == m[offset(x, y, width as int)],
{
    lemma_cell_positions(x, y, width as int, height as int);
}

/// The transpose is the one buffer that meets the cell-by-cell description.
pub proof fn lemma_transpose_characterised<T>(out: Seq<T>, m: Seq<T>, width: nat, height: nat)
    ensures
        is_transpose_of(out, m, width, height) <==> out == transposed(m, width, height),
{
    let w: int = width as int;
    let h: int = height as int;
    let t = transposed(m, width, height);
    assert forall|x: int, y: int| 0 <= x < w && 0 <= y < h implies #[trigger] t[offset(y, x, h)]
        == m[offset(x, y, w)] by {
        lemma_transposed_cell(m, width, height, x, y);
    }
    if is_transpose_of(out, m, width, height) {
        assert forall|k: int| 0 <= k < out.len() implies out[k] == t[k] by {
            lemma_transposed_position(k, width, height);
        }
        assert(out =~= t);
    }
}

/// Any two buffers that meet the transpose contract for the same matrix are
/// equal cell for cell: implementations of the contract are interchangeable.
pub proof fn lemma_contract_determines_output<T>(
    a: Seq<T>,
    b: Seq<T>,
    m: Seq<T>,
    width: nat,
    height: nat,
)
    requires
        is_transpose_of(a, m, width, height),
        is_transpose_of(b, m, width, height),
    ensures
        a == b,
{
    lemma_transpose_characterised(a, m, width, height);
    lemma_transpose_characterised(b, m, width, height);
}

/// Transposing a matrix and then transposing the result, with the two
/// dimensions exchanged, gives the matrix back.
pub proof fn lemma_transpose_involution<T>(m: Seq<T>, width: nat, height: nat)
    requires
        m.len() == width * height,
    ensures
        transposed(transposed(m, width, height), height, width) == m,
{
    let w: int = width as int;
    let h: int = height as int;
    let once = transposed(m, width, height);
    let twice = transposed(once, height, width);
    assert forall|k: int| 0 <= k < m.len() implies twice[k] == m[k] by {
        assert(0 < w) by (nonlinear_arith)
            requires
                0 <= k < w * h,
                0 <= h,
                0 <= w,
        ;
        lemma_position_coordinates(k, w, h);
        lemma_cell_positions(k % w, k / w, w, h);
    }
}

/// A matrix of a single column or of a single row is its own transpose.
pub proof fn lemma_transpose_degenerate<T>(m: Seq<T>, width: nat, height: nat)
    requires
        m.len() == width * height,
        width == 1 || height == 1,
    ensures
        transposed(m, width, height) == m,
{
    let t = transposed(m, width, height);
    assert forall|k: int| 0 <= k < m.len() implies t[k] == m[k] by {
        if height != 1 {
            lemma_offset_split(k, 0, height as int);
        }
    }
}

} // verus!
