use separable_transform::blocked::transpose_block;
use separable_transform::blocked::transpose_blocked;
use separable_transform::blocked::transpose_blocked_with;
use separable_transform::blocked::transpose_endcap_block;
use separable_transform::blocked::BLOCK_SIZE;
use separable_transform::shape::check_shape;
use separable_transform::shape::ShapeMismatch;
use separable_transform::strided::transpose_strided;

fn numbered(width: usize, height: usize) -> Vec<f32> {
    let mut cells = Vec::with_capacity(width * height);
    for y in 0..height {
        for x in 0..width {
            cells.push((x as f32) * 1000.0 + (y as f32) + 0.5);
        }
    }
    cells
}

fn assert_is_transpose(width: usize, height: usize, input: &[f32], output: &[f32]) {
    assert_eq!(output.len(), width * height);
    for y in 0..height {
        for x in 0..width {
            assert_eq!(
                output[y + x * height].to_bits(),
                input[x + y * width].to_bits(),
                "cell ({}, {}) of a {}x{} matrix",
                x,
                y,
                width,
                height
            );
        }
    }
}

fn bits(cells: &[f32]) -> Vec<u32> {
    cells.iter().map(|c| c.to_bits()).collect()
}

#[test]
fn strided_transposes_three_by_two() {
    let input = vec![1, 2, 3, 4, 5, 6];
    let mut output = vec![0; 6];
    assert_eq!(transpose_strided(3, 2, &input, &mut output), Ok(()));
    assert_eq!(output, vec![1, 4, 2, 5, 3, 6]);
}

#[test]
fn blocked_transposes_three_by_two() {
    let input = vec![1, 2, 3, 4, 5, 6];
    let mut output = vec![0; 6];
    assert_eq!(transpose_blocked(3, 2, &input, &mut output), Ok(()));
    assert_eq!(output, vec![1, 4, 2, 5, 3, 6]);
}

#[test]
fn three_by_two_floats() {
    let input = vec![1.0f32, 2.0, 3.0, 4.0, 5.0, 6.0];
    let mut strided = vec![0.0f32; 6];
    let mut blocked = vec![0.0f32; 6];
    assert_eq!(transpose_strided(3, 2, &input, &mut strided), Ok(()));
    assert_eq!(transpose_blocked(3, 2, &input, &mut blocked), Ok(()));
    assert_eq!(strided, vec![1.0, 4.0, 2.0, 5.0, 3.0, 6.0]);
    assert_eq!(blocked, vec![1.0, 4.0, 2.0, 5.0, 3.0, 6.0]);
}

#[test]
fn strided_and_blocked_agree() {
    let dimensions = [
        (5, 7),
        (1, 9),
        (17, 3),
        (8, 8),
        (64, 128),
        (8, 16),
        (16, 8),
        (9, 1),
        (7, 8),
        (8, 7),
        (23, 41),
        (256, 512),
    ];
    for &(width, height) in dimensions.iter() {
        let input = numbered(width, height);
        let mut strided = vec![-1.0f32; width * height];
        let mut blocked = vec![-2.0f32; width * height];
        assert_eq!(transpose_strided(width, height, &input, &mut strided), Ok(()));
        assert_eq!(transpose_blocked(width, height, &input, &mut blocked), Ok(()));
        assert_eq!(bits(&strided), bits(&blocked), "{}x{}", width, height);
        assert_is_transpose(width, height, &input, &strided);
        assert_is_transpose(width, height, &input, &blocked);
    }
}

#[test]
fn agreement_keeps_every_bit_pattern() {
    let input = vec![f32::NAN, -0.0, 0.0, f32::INFINITY, f32::MIN_POSITIVE, -1.5];
    let mut strided = vec![7.0f32; 6];
    let mut blocked = vec![9.0f32; 6];
    assert_eq!(transpose_strided(2, 3, &input, &mut strided), Ok(()));
    assert_eq!(transpose_blocked(2, 3, &input, &mut blocked), Ok(()));
    assert_eq!(bits(&strided), bits(&blocked));
    let expected = vec![
        input[0].to_bits(),
        input[2].to_bits(),
        input[4].to_bits(),
        input[1].to_bits(),
        input[3].to_bits(),
        input[5].to_bits(),
    ];
    assert_eq!(bits(&strided), expected);
}

#[test]
fn transposing_twice_gives_the_matrix_back() {
    for &(width, height) in [(3, 2), (5, 7), (10, 10), (1, 9), (16, 24), (64, 128)].iter() {
        let matrix = numbered(width, height);
        let mut once = vec![0.0f32; width * height];
        let mut twice = vec![0.0f32; width * height];
        assert_eq!(transpose_strided(width, height, &matrix, &mut once), Ok(()));
        assert_eq!(transpose_strided(height, width, &once, &mut twice), Ok(()));
        assert_eq!(bits(&twice), bits(&matrix));

        let mut once = vec![0.0f32; width * height];
        let mut twice = vec![0.0f32; width * height];
        assert_eq!(transpose_blocked(width, height, &matrix, &mut once), Ok(()));
        assert_eq!(transpose_blocked(height, width, &once, &mut twice), Ok(()));
        assert_eq!(bits(&twice), bits(&matrix));
    }
}

#[test]
fn strided_refuses_mismatched_buffers() {
    let input = vec![1u8; 6];
    let mut short = vec![0u8; 5];
    assert_eq!(
        transpose_strided(3, 2, &input, &mut short),
        Err(ShapeMismatch { width: 3, height: 2, input_len: 6, output_len: 5 })
    );
    assert_eq!(short, vec![0u8; 5]);

    let mut output = vec![0u8; 6];
    assert_eq!(
        transpose_strided(3, 3, &input, &mut output),
        Err(ShapeMismatch { width: 3, height: 3, input_len: 6, output_len: 6 })
    );
    assert_eq!(output, vec![0u8; 6]);

    let long = vec![1u8; 7];
    assert_eq!(
        transpose_strided(3, 2, &long, &mut output),
        Err(ShapeMismatch { width: 3, height: 2, input_len: 7, output_len: 6 })
    );
    assert_eq!(output, vec![0u8; 6]);
}

#[test]
fn blocked_refuses_mismatched_buffers() {
    let input = vec![1u8; 6];
    let mut short = vec![0u8; 5];
    assert_eq!(
        transpose_blocked(3, 2, &input, &mut short),
        Err(ShapeMismatch { width: 3, height: 2, input_len: 6, output_len: 5 })
    );
    assert_eq!(short, vec![0u8; 5]);

    let mut output = vec![0u8; 6];
    assert_eq!(
        transpose_blocked(3, 3, &input, &mut output),
        Err(ShapeMismatch { width: 3, height: 3, input_len: 6, output_len: 6 })
    );
    assert_eq!(output, vec![0u8; 6]);

    let long = vec![1u8; 7];
    assert_eq!(
        transpose_blocked(3, 2, &long, &mut output),
        Err(ShapeMismatch { width: 3, height: 2, input_len: 7, output_len: 6 })
    );
    assert_eq!(output, vec![0u8; 6]);
}

#[test]
fn a_product_beyond_usize_matches_no_buffer() {
    let input = vec![1u8; 4];
    let mut output = vec![0u8; 4];
    let expected = Err(ShapeMismatch { width: usize::MAX, height: 2, input_len: 4, output_len: 4 });
    assert_eq!(transpose_strided(usize::MAX, 2, &input, &mut output), expected);
    assert_eq!(transpose_blocked(usize::MAX, 2, &input, &mut output), expected);
    assert_eq!(output, vec![0u8; 4]);
    let empty: Vec<u8> = Vec::new();
    let mut none: Vec<u8> = Vec::new();
    let half = (usize::MAX / 2) + 1;
    assert!(transpose_strided(half, 2, &empty, &mut none).is_err());
    assert!(transpose_blocked(half, 2, &empty, &mut none).is_err());
}

#[test]
fn ten_by_ten_crosses_every_tile_boundary() {
    assert_eq!(BLOCK_SIZE, 8);
    let input = numbered(10, 10);
    let mut output = vec![f32::NAN; 100];
    assert_eq!(transpose_blocked(10, 10, &input, &mut output), Ok(()));
    assert_is_transpose(10, 10, &input, &output);
    // the full tile, the right band, the lower band and the corner
    assert_eq!(output[7 + 7 * 10], input[7 + 7 * 10]);
    assert_eq!(output[0 + 8 * 10], input[8 + 0 * 10]);
    assert_eq!(output[7 + 9 * 10], input[9 + 7 * 10]);
    assert_eq!(output[8 + 0 * 10], input[0 + 8 * 10]);
    assert_eq!(output[9 + 7 * 10], input[7 + 9 * 10]);
    assert_eq!(output[8 + 8 * 10], input[8 + 8 * 10]);
    assert_eq!(output[9 + 8 * 10], input[8 + 9 * 10]);
    assert_eq!(output[8 + 9 * 10], input[9 + 8 * 10]);
    assert_eq!(output[9 + 9 * 10], input[9 + 9 * 10]);
    let mut strided = vec![f32::NAN; 100];
    assert_eq!(transpose_strided(10, 10, &input, &mut strided), Ok(()));
    assert_eq!(bits(&strided), bits(&output));
}

#[test]
fn single_column_and_single_row() {
    let cells: Vec<u32> = (0..9).collect();
    for &(width, height) in [(1, 9), (9, 1)].iter() {
        let mut strided = vec![99u32; 9];
        let mut blocked = vec![77u32; 9];
        assert_eq!(transpose_strided(width, height, &cells, &mut strided), Ok(()));
        assert_eq!(transpose_blocked(width, height, &cells, &mut blocked), Ok(()));
        assert_eq!(strided, cells);
        assert_eq!(blocked, cells);
    }
    let one = vec![42u32];
    let mut out = vec![0u32];
    assert_eq!(transpose_blocked(1, 1, &one, &mut out), Ok(()));
    assert_eq!(out, vec![42]);
    let mut out = vec![0u32];
    assert_eq!(transpose_strided(1, 1, &one, &mut out), Ok(()));
    assert_eq!(out, vec![42]);
}

#[test]
fn matrices_smaller_than_a_tile() {
    let input: Vec<u16> = (0..35).collect();
    let mut output = vec![0u16; 35];
    assert_eq!(transpose_blocked(5, 7, &input, &mut output), Ok(()));
    for y in 0..7 {
        for x in 0..5 {
            assert_eq!(output[y + x * 7], input[x + y * 5]);
        }
    }
}

#[test]
fn empty_matrices() {
    let empty: Vec<i64> = Vec::new();
    let mut output: Vec<i64> = Vec::new();
    for &(width, height) in [(0, 0), (0, 5), (5, 0)].iter() {
        assert_eq!(transpose_strided(width, height, &empty, &mut output), Ok(()));
        assert_eq!(transpose_blocked(width, height, &empty, &mut output), Ok(()));
        assert!(output.is_empty());
    }
    let mut one = vec![1i64];
    assert_eq!(
        transpose_strided(0, 5, &empty, &mut one),
        Err(ShapeMismatch { width: 0, height: 5, input_len: 0, output_len: 1 })
    );
    assert_eq!(one, vec![1]);
}

#[test]
fn the_tile_size_does_not_change_the_result() {
    let (width, height) = (13, 22);
    let input = numbered(width, height);
    let mut reference = vec![0.0f32; width * height];
    assert_eq!(transpose_strided(width, height, &input, &mut reference), Ok(()));
    for block_size in [1usize, 2, 3, 5, 8, 13, 16, 22, 64, 1000] {
        let mut output = vec![f32::NAN; width * height];
        assert_eq!(transpose_blocked_with(block_size, width, height, &input, &mut output), Ok(()));
        assert_eq!(bits(&output), bits(&reference), "tile size {}", block_size);
    }
    let mut short = vec![0.0f32; 3];
    assert_eq!(
        transpose_blocked_with(4, width, height, &input, &mut short),
        Err(ShapeMismatch { width, height, input_len: width * height, output_len: 3 })
    );
}

#[test]
fn a_full_tile_touches_nothing_else() {
    let (width, height) = (6, 5);
    let input: Vec<i32> = (1..=30).collect();
    let mut output = vec![-1i32; 30];
    // tiles of side 2: tile column 1 and tile row 1 cover columns 2..4 and rows 2..4
    transpose_block(&input, &mut output, width, height, 2, 1, 1);
    for y in 0..height {
        for x in 0..width {
            let inside = (2..4).contains(&x) && (2..4).contains(&y);
            let expected = if inside { input[x + y * width] } else { -1 };
            assert_eq!(output[y + x * height], expected, "cell ({}, {})", x, y);
        }
    }
}

#[test]
fn an_endcap_tile_touches_nothing_else() {
    let (width, height) = (7, 5);
    let input: Vec<i32> = (100..135).collect();
    let mut output = vec![0i32; 35];
    // tiles of side 3: the right band of tile row 0 is one column wide
    transpose_endcap_block(&input, &mut output, width, height, 3, 2, 0, 1, 3);
    for y in 0..height {
        for x in 0..width {
            let inside = x == 6 && y < 3;
            let expected = if inside { input[x + y * width] } else { 0 };
            assert_eq!(output[y + x * height], expected, "cell ({}, {})", x, y);
        }
    }
    // the corner: one column wide, two rows high
    transpose_endcap_block(&input, &mut output, width, height, 3, 2, 1, 1, 2);
    assert_eq!(output[3 + 6 * height], input[6 + 3 * width]);
    assert_eq!(output[4 + 6 * height], input[6 + 4 * width]);
    assert_eq!(output[4 + 5 * height], 0);
    // an empty tile writes nothing
    let before = output.clone();
    transpose_endcap_block(&input, &mut output, width, height, 3, 0, 0, 0, 3);
    transpose_endcap_block(&input, &mut output, width, height, 3, 0, 0, 3, 0);
    assert_eq!(output, before);
}

#[test]
fn shapes_are_compared_with_the_product() {
    assert_eq!(check_shape(3, 2, 6, 6), Ok(()));
    assert_eq!(check_shape(0, 2, 0, 0), Ok(()));
    assert_eq!(
        check_shape(3, 2, 6, 7),
        Err(ShapeMismatch { width: 3, height: 2, input_len: 6, output_len: 7 })
    );
    assert_eq!(
        check_shape(3, 2, 5, 6),
        Err(ShapeMismatch { width: 3, height: 2, input_len: 5, output_len: 6 })
    );
    assert_eq!(
        check_shape(usize::MAX, usize::MAX, 1, 1),
        Err(ShapeMismatch { width: usize::MAX, height: usize::MAX, input_len: 1, output_len: 1 })
    );
}
