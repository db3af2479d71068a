use separable_transform::blocked::BLOCK_SIZE;
use separable_transform::shape::ShapeMismatch;
use separable_transform::strategy::BlockedTranspose;
use separable_transform::strategy::StridedTranspose;
use separable_transform::strategy::Transpose;

fn run<X: Transpose>(strategy: &X, width: usize, height: usize, input: &[u32]) -> Vec<u32> {
    let mut output = vec![u32::MAX; input.len()];
    assert_eq!(strategy.transpose(width, height, input, &mut output), Ok(()));
    output
}

#[test]
fn a_tile_size_of_zero_is_refused() {
    assert!(BlockedTranspose::new(0).is_none());
    assert_eq!(BlockedTranspose::new(1).map(|t| t.block_size()), Some(1));
    assert_eq!(BlockedTranspose::new(32).map(|t| t.block_size()), Some(32));
}

#[test]
fn the_default_tile_size_is_eight() {
    assert_eq!(BlockedTranspose::default().block_size(), 8);
    assert_eq!(BlockedTranspose::default().block_size(), BLOCK_SIZE);
}

#[test]
fn strategies_are_interchangeable() {
    for &(width, height) in [(3usize, 2usize), (10, 10), (5, 7), (1, 9), (17, 3), (8, 8)].iter() {
        let input: Vec<u32> = (0..(width * height) as u32).collect();
        let strided = run(&StridedTranspose, width, height, &input);
        let blocked = run(&BlockedTranspose::default(), width, height, &input);
        let small = run(&BlockedTranspose::new(3).unwrap(), width, height, &input);
        assert_eq!(strided, blocked);
        assert_eq!(strided, small);
        for y in 0..height {
            for x in 0..width {
                assert_eq!(strided[y + x * height], input[x + y * width]);
            }
        }
    }
}

#[test]
fn strategies_transpose_three_by_two() {
    let input = vec![1, 2, 3, 4, 5, 6];
    assert_eq!(run(&StridedTranspose, 3, 2, &input), vec![1, 4, 2, 5, 3, 6]);
    assert_eq!(run(&BlockedTranspose::default(), 3, 2, &input), vec![1, 4, 2, 5, 3, 6]);
}

#[test]
fn strategies_refuse_mismatched_buffers() {
    let input = vec![0u32; 6];
    let mut output = vec![5u32; 4];
    let expected = Err(ShapeMismatch { width: 3, height: 2, input_len: 6, output_len: 4 });
    assert_eq!(StridedTranspose.transpose(3, 2, &input, &mut output), expected);
    assert_eq!(BlockedTranspose::default().transpose(3, 2, &input, &mut output), expected);
    assert_eq!(output, vec![5u32; 4]);
}
