//! The transpose as a strategy: one contract, and the implementations that a
//! caller can choose between without any change in the result.

use vstd::prelude::*;
use crate::blocked::transpose_blocked_with;
use crate::blocked::BLOCK_SIZE;
use crate::layout::is_transpose_of;
use crate::layout::transposed;
use crate::shape::shape_matches;
use crate::shape::ShapeMismatch;
use crate::strided::transpose_strided;

verus! {

/// A way to transpose a flat, row-major matrix.
///
/// The contract fixes the result completely, so every implementation writes
/// the same cells for the same matrix.
pub trait Transpose {
    /// Transposes the `width` by `height` matrix `input` into `output`, or
    /// reports that a buffer does not hold `width * height` cells and leaves
    /// `output` as it was.
    fn transpose<T: Copy>(&self, width: usize, height: usize, input: &[T], output: &mut [T]) -> (res:
        Result<(), ShapeMismatch>)
        ensures
            res is Ok <==> shape_matches(
                width as int,
                height as int,
                input@.len() as int,
                old(output)@.len() as int,
            ),
            res is Ok ==> final(output)@ == transposed(input@, width as nat, height as nat),
            res is Ok ==> is_transpose_of(final(output)@, input@, width as nat, height as nat),
            res matches Err(e) ==> final(output)@ == old(output)@ && e == (ShapeMismatch {
                width,
                height,
                input_len: input@.len() as usize,
                output_len: old(output)@.len() as usize,
            }),
    ;
}

/// The strided transpose as a strategy.
#[derive(Clone, Copy, Debug, Default)]
pub struct StridedTranspose;

impl Transpose for StridedTranspose {
    fn transpose<T: Copy>(&self, width: usize, height: usize, input: &[T], output: &mut [T]) -> (res:
        Result<(), ShapeMismatch>)
    {
        transpose_strided(width, height, input, output)
    }
}

/// The blocked transpose as a strategy, with a tile size chosen by the
/// caller. The tile size is never zero.
#[derive(Clone, Copy, Debug)]
pub struct BlockedTranspose {
    block_size: usize,
}

impl BlockedTranspose {
    #[verifier::type_invariant]
    spec fn positive(self) -> bool {
        self.block_size > 0
    }

    /// The tile size of this strategy.
    pub closed spec fn tile_size(self) -> usize {
        self.block_size
    }

    /// A blocked transpose with tiles of `block_size` cells on each side;
    /// none for a tile size of zero.
    pub fn new(block_size: usize) -> (res: Option<BlockedTranspose>)
        ensures
            res is Some <==> block_size > 0,
            res matches Some(t) ==> t.tile_size() == block_size,
    {
        if block_size > 0 {
            Some(BlockedTranspose { block_size })
        } else {
            None
        }
    }

    /// The tile size of this strategy.
    pub fn block_size(&self) -> (size: usize)
        ensures
            size == self.tile_size(),
            size > 0,
    {
        proof {
            use_type_invariant(self);
        }
        self.block_size
    }
}

impl Default for BlockedTranspose {
    fn default() -> (res: BlockedTranspose)
        ensures
            res.tile_size() == BLOCK_SIZE,
    {
        BlockedTranspose { block_size: BLOCK_SIZE }
    }
}

impl Transpose for BlockedTranspose {
    fn transpose<T: Copy>(&self, width: usize, height: usize, input: &[T], output: &mut [T]) -> (res:
        Result<(), ShapeMismatch>)
    {
        transpose_blocked_with(self.block_size(), width, height, input, output)
    }
}

} // verus!
