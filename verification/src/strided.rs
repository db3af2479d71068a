//! The strided transpose: the source is read cell after cell in the order in
//! which it lies in memory, and the place of each cell in the target is
//! computed from its column and row.

use vstd::prelude::*;
use crate::layout::lemma_cell_positions;
use crate::layout::lemma_position_coordinates;
use crate::layout::offset;
use crate::layout::is_transpose_of;
use crate::layout::lemma_transpose_characterised;
use crate::layout::transposed;
use crate::shape::ShapeMismatch;
use crate::shape::check_shape;
use crate::shape::shape_matches;
use crate::tiling::covered;
use crate::tiling::lemma_band_done;
use crate::tiling::lemma_transposed_on_all;
use crate::tiling::transposed_on;

verus! {

/// Transposes the `width` by `height` matrix `input` into `output`: the cell
/// in column `x` and row `y` of `input` goes to position `y + x * height`.
///
/// Both buffers must hold `width * height` cells; otherwise nothing is
/// written and the mismatch is reported.
pub fn transpose_strided<T: Copy>(width: usize, height: usize, input: &[T], output: &mut [T]) -> (res:
    Result<(), ShapeMismatch>)
    ensures
        res is Ok <==> shape_matches(
            width as int,
            height as int,
            input@.len() as int,
            old(output)@.len() as int,
        ),
        res is Ok ==> final(output)@ == transposed(input@, width as nat, height as nat),
        res is Ok ==> is_transpose_of(final(output)@, input@, width as nat, height as nat),
        res matches Err(e) ==> final(output)@ == old(output)@ && e == (ShapeMismatch {
            width,
            height,
            input_len: input@.len() as usize,
            output_len: old(output)@.len() as usize,
        }),
{
    let len: usize = input.len();
    match check_shape(width, height, len, output.len()) {
        Ok(()) => {},
        Err(e) => {
            return Err(e);
        },
    }
    let ghost w: nat = width as nat;
    let ghost h: nat = height as nat;
    let mut y: usize = 0;
    while y < height
        invariant
            y <= height,
            w == width,
            h == height,
            len == width * height,
            input@.len() == width * height,
            transposed_on(output@, input@, w, h, y as int, 0, 0),
        decreases height - y,
    {
        let mut x: usize = 0;
        while x < width
            invariant
                x <= width,
                y < height,
                w == width,
                h == height,
                len == width * height,
                input@.len() == width * height,
                transposed_on(output@, input@, w, h, y as int, y + 1, x as int),
            decreases width - x,
        {
            proof {
                lemma_cell_positions(x as int, y as int, w as int, h as int);
            }
            let ghost target: int = offset(y as int, x as int, h as int);
            output[y + x * height] = input[x + y * width];
            proof {
                assert forall|k: int|
                    0 <= k < output@.len() && covered(
                        k / (h as int),
                        k % (h as int),
                        y as int,
                        y + 1,
                        x + 1,
                    ) implies #[trigger] output@[k] == input@[offset(
                    k / (h as int),
                    k % (h as int),
                    w as int,
                )] by {
                    if k != target && k / (h as int) == x && k % (h as int) == y {
                        lemma_position_coordinates(k, h as int, w as int);
                    }
                }
            }
            x += 1;
        }
        proof {
            lemma_band_done(output@, input@, w, h, y as int, y + 1);
        }
        y += 1;
    }
    proof {
        lemma_transposed_on_all(output@, input@, w, h, height as int, 0, 0);
        lemma_transpose_characterised(output@, input@, w, h);
    }
    Ok(())
}

} // verus!
