//! The cache-blocked transpose: the matrix is cut into square tiles, and each
//! tile is transposed on its own, so that the cells touched together stay
//! close together in memory.

use vstd::prelude::*;
use crate::layout::lemma_cell_positions;
use crate::layout::lemma_position_coordinates;
use crate::layout::offset;
use crate::layout::is_transpose_of;
use crate::layout::lemma_transpose_characterised;
use crate::layout::transposed;
use crate::shape::ShapeMismatch;
use crate::shape::check_shape;
use crate::shape::shape_matches;
use crate::tiling::in_tile;
use crate::tiling::lemma_band_done;
use crate::tiling::lemma_tile_edges;
use crate::tiling::lemma_transposed_on_all;
use crate::tiling::transposed_on;
use crate::tiling::with_tile;
use vstd::arithmetic::div_mod::lemma_fundamental_div_mod;

verus! {

/// Side of a tile where the caller does not choose one.
pub const BLOCK_SIZE: usize = 8;

/// Transposes one tile of irregular size from `input` into `output`.
///
/// The tile starts at column `block_x * block_size` and row
/// `block_y * block_size` of the `width` by `height` matrix `input`, and spans
/// `block_width` columns and `block_height` rows. Positions of `output`
/// outside the tile are left as they were.
pub fn transpose_endcap_block<T: Copy>(
    input: &[T],
    output: &mut [T],
    width: usize,
    height: usize,
    block_size: usize,
    block_x: usize,
    block_y: usize,
    block_width: usize,
    block_height: usize,
)
    requires
        input@.len() == width * height,
        old(output)@.len() == width * height,
        block_x * block_size + block_width <= width,
        block_y * block_size + block_height <= height,
    ensures
        final(output)@ == with_tile(
            old(output)@,
            input@,
            width as nat,
            height as nat,
            block_x * block_size,
            block_y * block_size,
            block_width as int,
            block_height as int,
        ),
{
    let len: usize = input.len();
    let left: usize = block_x * block_size;
    let top: usize = block_y * block_size;
    let ghost before = output@;
    let ghost w: int = width as int;
    let ghost h: int = height as int;
    let mut inner_x: usize = 0;
    while inner_x < block_width
        invariant
            inner_x <= block_width,
            left + block_width <= width,
            top + block_height <= height,
            w == width,
            h == height,
            len == w * h,
            input@.len() == w * h,
            before.len() == w * h,
            output@ == with_tile(
                before,
                input@,
                width as nat,
                height as nat,
                left as int,
                top as int,
                inner_x as int,
                block_height as int,
            ),
        decreases block_width - inner_x,
    {
        let x: usize = left + inner_x;
        let mut inner_y: usize = 0;
        while inner_y < block_height
            invariant
                inner_y <= block_height,
                x == left + inner_x,
                x < width,
                top + block_height <= height,
                w == width,
                h == height,
                len == w * h,
                input@.len() == w * h,
                before.len() == w * h,
                output@.len() == before.len(),
                forall|k: int|
                    0 <= k < before.len() ==> #[trigger] output@[k] == (if in_tile(
                        k / h,
                        k % h,
                        left as int,
                        top as int,
                        inner_x as int,
                        block_height as int,
                    ) || (k / h == x && top <= k % h < top + inner_y) {
                        input@[offset(k / h, k % h, w)]
                    } else {
                        before[k]
                    }),
            decreases block_height - inner_y,
        {
            let y: usize = top + inner_y;
            proof {
                lemma_cell_positions(x as int, y as int, w, h);
            }
            let ghost target: int = offset(y as int, x as int, h);
            output[y + x * height] = input[x + y * width];
            proof {
                assert forall|k: int| 0 <= k < before.len() implies #[trigger] output@[k] == (
                if in_tile(
                    k / h,
                    k % h,
                    left as int,
                    top as int,
                    inner_x as int,
                    block_height as int,
                ) || (k / h == x && top <= k % h < top + inner_y + 1) {
                    input@[offset(k / h, k % h, w)]
                } else {
                    before[k]
                }) by {
                    if k != target && k / h == x && k % h == y {
                        lemma_position_coordinates(k, h, w);
                    }
                }
            }
            inner_y += 1;
        }
        inner_x += 1;
        assert(output@ =~= with_tile(
            before,
            input@,
            width as nat,
            height as nat,
            left as int,
            top as int,
            inner_x as int,
            block_height as int,
        ));
    }
}

/// Transposes one full tile, `block_size` cells on each side, from `input`
/// into `output`.
///
/// The tile starts at column `block_x * block_size` and row
/// `block_y * block_size` of the `width` by `height` matrix `input`.
/// Positions of `output` outside the tile are left as they were.
pub fn transpose_block<T: Copy>(
    input: &[T],
    output: &mut [T],
    width: usize,
    height: usize,
    block_size: usize,
    block_x: usize,
    block_y: usize,
)
    requires
        input@.len() == width * height,
        old(output)@.len() == width * height,
        block_x * block_size + block_size <= width,
        block_y * block_size + block_size <= height,
    ensures
        final(output)@ == with_tile(
            old(output)@,
            input@,
            width as nat,
            height as nat,
            block_x * block_size,
            block_y * block_size,
            block_size as int,
            block_size as int,
        ),
{
    transpose_endcap_block(
        input,
        output,
        width,
        height,
        block_size,
        block_x,
        block_y,
        block_size,
        block_size,
    );
}

/// Transposes the `width` by `height` matrix `input` into `output`, tile by
/// tile, with tiles of `block_size` cells on each side.
///
/// Full tiles are walked row of tiles by row of tiles; where the width is no
/// multiple of the tile size each such row ends in a narrower tile, and where
/// the height is none a last row of lower tiles follows. The result does not
/// depend on `block_size`.
pub fn transpose_blocked_with<T: Copy>(
    block_size: usize,
    width: usize,
    height: usize,
    input: &[T],
    output: &mut [T],
) -> (res: Result<(), ShapeMismatch>)
    requires
        block_size > 0,
    ensures
        res is Ok <==> shape_matches(
            width as int,
            height as int,
            input@.len() as int,
            old(output)@.len() as int,
        ),
        res is Ok ==> final(output)@ == transposed(input@, width as nat, height as nat),
        res is Ok ==> is_transpose_of(final(output)@, input@, width as nat, height as nat),
        res matches Err(e) ==> final(output)@ == old(output)@ && e == (ShapeMismatch {
            width,
            height,
            input_len: input@.len() as usize,
            output_len: old(output)@.len() as usize,
        }),
{
    match check_shape(width, height, input.len(), output.len()) {
        Ok(()) => {},
        Err(e) => {
            return Err(e);
        },
    }
    let x_block_count: usize = width / block_size;
    let y_block_count: usize = height / block_size;
    proof {
        lemma_fundamental_div_mod(width as int, block_size as int);
        lemma_fundamental_div_mod(height as int, block_size as int);
        assert(x_block_count * block_size == block_size * x_block_count) by (nonlinear_arith);
        assert(y_block_count * block_size == block_size * y_block_count) by (nonlinear_arith);
    }
    let remainder_x: usize = width - x_block_count * block_size;
    let remainder_y: usize = height - y_block_count * block_size;
    let ghost w: nat = width as nat;
    let ghost h: nat = height as nat;
    let ghost size: int = block_size as int;
    let ghost full_width: int = x_block_count * block_size;
    let ghost full_height: int = y_block_count * block_size;

    let mut y_block: usize = 0;
    while y_block < y_block_count
        invariant
            y_block <= y_block_count,
            0 < size == block_size,
            w == width,
            h == height,
            full_width == x_block_count * size,
            full_height == y_block_count * size,
            full_width + remainder_x == width,
            full_height + remainder_y == height,
            input@.len() == width * height,
            transposed_on(output@, input@, w, h, y_block * size, 0, 0),
        decreases y_block_count - y_block,
    {
        let ghost top: int = y_block * size;
        proof {
            lemma_tile_edges(y_block as int, y_block_count as int, size);
        }
        let mut x_block: usize = 0;
        while x_block < x_block_count
            invariant
                x_block <= x_block_count,
                0 < size == block_size,
                w == width,
                h == height,
                top == y_block * size,
                top + size <= full_height,
                full_width == x_block_count * size,
                full_width + remainder_x == width,
                full_height + remainder_y == height,
                input@.len() == width * height,
                transposed_on(output@, input@, w, h, top, top + size, x_block * size),
            decreases x_block_count - x_block,
        {
            proof {
                lemma_tile_edges(x_block as int, x_block_count as int, size);
            }
            transpose_block(input, output, width, height, block_size, x_block, y_block);
            x_block += 1;
        }
        if remainder_x > 0 {
            transpose_endcap_block(
                input,
                output,
                width,
                height,
                block_size,
                x_block_count,
                y_block,
                remainder_x,
                block_size,
            );
        }
        y_block += 1;
        proof {
            lemma_band_done(output@, input@, w, h, top, top + size);
        }
    }

    if remainder_y > 0 {
        let mut x_block: usize = 0;
        while x_block < x_block_count
            invariant
                x_block <= x_block_count,
                0 < size == block_size,
                w == width,
                h == height,
                full_width == x_block_count * size,
                full_height == y_block_count * size,
                full_width + remainder_x == width,
                full_height + remainder_y == height,
                input@.len() == width * height,
                transposed_on(output@, input@, w, h, full_height, height as int, x_block * size),
            decreases x_block_count - x_block,
        {
            proof {
                lemma_tile_edges(x_block as int, x_block_count as int, size);
            }
            transpose_endcap_block(
                input,
                output,
                width,
                height,
                block_size,
                x_block,
                y_block_count,
                block_size,
                remainder_y,
            );
            x_block += 1;
        }
        if remainder_x > 0 {
            transpose_endcap_block(
                input,
                output,
                width,
                height,
                block_size,
                x_block_count,
                y_block_count,
                remainder_x,
                remainder_y,
            );
        }
    }
    proof {
        lemma_transposed_on_all(output@, input@, w, h, full_height, height as int, width as int);
        lemma_transpose_characterised(output@, input@, w, h);
    }
    Ok(())
}

/// Transposes the `width` by `height` matrix `input` into `output`, tile by
/// tile, with tiles of `BLOCK_SIZE` cells on each side.
pub fn transpose_blocked<T: Copy>(width: usize, height: usize, input: &[T], output: &mut [T]) -> (res:
    Result<(), ShapeMismatch>)
    ensures
        res is Ok <==> shape_matches(
            width as int,
            height as int,
            input@.len() as int,
            old(output)@.len() as int,
        ),
        res is Ok ==> final(output)@ == transposed(input@, width as nat, height as nat),
        res is Ok ==> is_transpose_of(final(output)@, input@, width as nat, height as nat),
        res matches Err(e) ==> final(output)@ == old(output)@ && e == (ShapeMismatch {
            width,
            height,
            input_len: input@.len() as usize,
            output_len: old(output)@.len() as usize,
        }),
{
    transpose_blocked_with(BLOCK_SIZE, width, height, input, output)
}

} // verus!
