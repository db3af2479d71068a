//! The one condition under which a transpose is refused: buffers that do not
//! hold exactly one cell for each position of the matrix.

use vstd::prelude::*;

verus! {

/// A buffer handed to a transpose does not have `width * height` cells.
///
/// The value records the dimensions asked for and the lengths found.
#[derive(Clone, Copy, Debug, PartialEq, Eq, Structural)]
pub struct ShapeMismatch {
    pub width: usize,
    pub height: usize,
    pub input_len: usize,
    pub output_len: usize,
}

/// Whether buffers of the given lengths can hold a `width` by `height` matrix
/// and its transpose.
pub open spec fn shape_matches(width: int, height: int, input_len: int, output_len: int) -> bool {
    input_len == width * height && output_len == width * height
}

/// Compares the lengths of a source and a target buffer with the dimensions
/// of the matrix. A product `width * height` that no `usize` can hold matches
/// no buffer.
pub fn check_shape(width: usize, height: usize, input_len: usize, output_len: usize) -> (res:
    Result<(), ShapeMismatch>)
    ensures
        res is Ok <==> shape_matches(
            width as int,
            height as int,
            input_len as int,
            output_len as int,
        ),
        res matches Err(e) ==> e == (ShapeMismatch { width, height, input_len, output_len }),
{
    match width.checked_mul(height) {
        Some(cells) => {
            if cells == input_len && cells == output_len {
                return Ok(());
            }
        },
        None => {},
    }
    Err(ShapeMismatch { width, height, input_len, output_len })
}

} // verus!
