//! How a transpose proceeds tile by tile: what one tile writes, and which
//! part of the matrix is done while the tiles are walked.

use vstd::prelude::*;
use vstd::arithmetic::div_mod::lemma_div_is_ordered;
use vstd::arithmetic::div_mod::lemma_fundamental_div_mod;
use vstd::arithmetic::div_mod::lemma_fundamental_div_mod_converse;
use vstd::arithmetic::div_mod::lemma_mod_pos_bound;
use crate::layout::lemma_transposed_position;
use crate::layout::offset;
use crate::layout::transposed;

verus! {

/// Whether column `x` and row `y` lie in the tile whose first column is
/// `left`, whose first row is `top`, and which spans `tile_width` columns and
/// `tile_height` rows.
pub open spec fn in_tile(
    x: int,
    y: int,
    left: int,
    top: int,
    tile_width: int,
    tile_height: int,
) -> bool {
    left <= x < left + tile_width && top <= y < top + tile_height
}

/// Number of cells that the tile with index `block` spans along a side of
/// `dim` cells cut into tiles of side `size`: the full tiles come first, one
/// narrower tile takes what is left, and there is no tile after it.
pub open spec fn tile_span(block: int, dim: int, size: int) -> int {
    if block < dim / size {
        size
    } else if block == dim / size {
        dim % size
    } else {
        0
    }
}

/// The target buffer `out` after one tile of the `width` by `height` matrix
/// `m` has been transposed into it: the positions that belong to the tile
/// hold the transposed cells of `m`, all others keep what `out` had.
pub open spec fn with_tile<T>(
    out: Seq<T>,
    m: Seq<T>,
    width: nat,
    height: nat,
    left: int,
    top: int,
    tile_width: int,
    tile_height: int,
) -> Seq<T> {
    Seq::new(
        out.len(),
        |k: int|
            if in_tile(
                k / (height as int),
                k % (height as int),
                left,
                top,
                tile_width,
                tile_height,
            ) {
                m[offset(k / (height as int), k % (height as int), width as int)]
            } else {
                out[k]
            },
    )
}

/// The part of a transpose that is done while the tiles are walked band by
/// band: every row above `full_rows`, and of the rows above `band_rows` the
/// columns left of `band_cols`.
pub open spec fn covered(x: int, y: int, full_rows: int, band_rows: int, band_cols: int) -> bool {
    y < full_rows || (y < band_rows && x < band_cols)
}

/// Whether `out` agrees with the transpose of the `width` by `height` matrix
/// `m` on the part described by `covered`.
pub open spec fn transposed_on<T>(
    out: Seq<T>,
    m: Seq<T>,
    width: nat,
    height: nat,
    full_rows: int,
    band_rows: int,
    band_cols: int,
) -> bool {
    &&& out.len() == width * height
    &&& forall|k: int|
        0 <= k < out.len() && covered(
            k / (height as int),
            k % (height as int),
            full_rows,
            band_rows,
            band_cols,
        ) ==> #[trigger] out[k] == m[offset(k / (height as int), k % (height as int), width as int)]
}

/// Along one side the tiles leave no gap and do not overlap: a cell lies in
/// the tile whose index is the quotient of its coordinate by the tile size,
/// and in no other.
pub proof fn lemma_tiles_partition_side(x: int, dim: int, size: int, block: int)
    requires
        0 <= x < dim,
        0 < size,
        0 <= block,
    ensures
        (block * size <= x < block * size + tile_span(block, dim, size)) <==> block == x / size,
{
    let q: int = x / size;
    let full: int = dim / size;
    lemma_fundamental_div_mod(x, size);
    lemma_fundamental_div_mod(dim, size);
    lemma_mod_pos_bound(x, size);
    lemma_mod_pos_bound(dim, size);
    lemma_div_is_ordered(x, dim, size);
    assert(size * q == q * size && size * full == full * size) by (nonlinear_arith);
    if block != q && block * size <= x < block * size + tile_span(block, dim, size) {
        assert(0 <= tile_span(block, dim, size) <= size);
        lemma_fundamental_div_mod_converse(x, size, block, x - block * size);
    }
}

/// The tiles cut the matrix into parts that leave no gap and do not overlap:
/// each cell of the matrix lies in exactly one tile.
pub proof fn lemma_tiles_partition(
    x: int,
    y: int,
    width: int,
    height: int,
    size: int,
    block_x: int,
    block_y: int,
)
    requires
        0 <= x < width,
        0 <= y < height,
        0 < size,
        0 <= block_x,
        0 <= block_y,
    ensures
        in_tile(
            x,
            y,
            block_x * size,
            block_y * size,
            tile_span(block_x, width, size),
            tile_span(block_y, height, size),
        ) <==> (block_x == x / size && block_y == y / size),
{
    lemma_tiles_partition_side(x, width, size, block_x);
    lemma_tiles_partition_side(y, height, size, block_y);
}

/// The tile with index `block` among `blocks` tiles of side `size` ends where
/// the next one begins, and no later than the last one ends.
pub proof fn lemma_tile_edges(block: int, blocks: int, size: int)
    by (nonlinear_arith)
    requires
        0 <= block < blocks,
        0 < size,
    ensures
        0 <= block * size,
        (block + 1) * size == block * size + size,
        (block + 1) * size <= blocks * size,
{
}

/// Once a band of rows is done over the whole width, every row above its
/// lower edge is done.
pub proof fn lemma_band_done<T>(
    out: Seq<T>,
    m: Seq<T>,
    width: nat,
    height: nat,
    full_rows: int,
    band_rows: int,
)
    requires
        transposed_on(out, m, width, height, full_rows, band_rows, width as int),
    ensures
        transposed_on(out, m, width, height, band_rows, 0, 0),
{
    let w: int = width as int;
    let h: int = height as int;
    assert forall|k: int|
        0 <= k < out.len() && covered(k / h, k % h, band_rows, 0, 0) implies #[trigger] out[k]
        == m[offset(k / h, k % h, w)] by {
        lemma_transposed_position(k, width, height);
    }
}

/// A buffer that agrees with the transpose on every row is the transpose.
pub proof fn lemma_transposed_on_all<T>(
    out: Seq<T>,
    m: Seq<T>,
    width: nat,
    height: nat,
    full_rows: int,
    band_rows: int,
    band_cols: int,
)
    requires
        transposed_on(out, m, width, height, full_rows, band_rows, band_cols),
        full_rows >= height || (band_rows >= height && band_cols >= width),
    ensures
        out == transposed(m, width, height),
{
    let w: int = width as int;
    let h: int = height as int;
    assert forall|k: int| 0 <= k < out.len() implies out[k] == transposed(m, width, height)[k] by {
        lemma_transposed_position(k, width, height);
    }
}

} // verus!
