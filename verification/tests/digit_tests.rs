use digit_net::digit::Digit;
use digit_net::generic_lib::{HasPixels, PixelSizes, DIGIT_HEIGHT, DIGIT_LENGTH};

fn grid_input(marks: &[(usize, usize)]) -> String {
    let mut chars: Vec<char> = vec![' '; DIGIT_HEIGHT * DIGIT_LENGTH];
    for &(y, x) in marks {
        chars[y * DIGIT_LENGTH + x] = '#';
    }
    chars.into_iter().collect()
}

#[test]
fn digit_new_reads_row_major() {
    let input = grid_input(&[(0, 0), (0, 27), (3, 5), (27, 27)]);
    let digit = Digit::new(input);
    let PixelSizes::PixelWrapper(grid) = digit.get_pixels();
    assert_eq!(grid.len(), DIGIT_HEIGHT);
    for row in &grid {
        assert_eq!(row.len(), DIGIT_LENGTH);
    }
    assert_eq!(grid[0][0], '#');
    assert_eq!(grid[0][27], '#');
    assert_eq!(grid[3][5], '#');
    assert_eq!(grid[27][27], '#');
    assert_eq!(grid[1][0], ' ');
    assert_eq!(grid[3][6], ' ');
}

#[test]
fn digit_new_ignores_trailing_characters() {
    let mut input = grid_input(&[(2, 2)]);
    input.push_str("###extra###");
    let digit = Digit::new(input);
    let PixelSizes::PixelWrapper(grid) = digit.get_pixels();
    assert_eq!(grid[2][2], '#');
    assert_eq!(grid[27][27], ' ');
}

#[test]
fn digit_get_size_is_grid_area() {
    let digit = Digit::new(grid_input(&[]));
    assert_eq!(digit.get_size(), 784);
}

#[test]
fn digit_get_num_output_is_ten() {
    let digit = Digit::new(grid_input(&[]));
    assert_eq!(digit.get_num_output(), 10);
}

#[test]
fn flatten_encodes_marks_as_one() {
    let digit = Digit::new(grid_input(&[(0, 1), (5, 0)]));
    let features = digit.flatten();
    assert_eq!(features.len(), 784);
    assert_eq!(features[0], 0);
    assert_eq!(features[1], 1);
    assert_eq!(features[5 * DIGIT_LENGTH], 1);
    assert_eq!(features[5 * DIGIT_LENGTH + 1], 0);
    let ones = features.iter().filter(|&&b| b == 1).count();
    assert_eq!(ones, 2);
}

#[test]
fn flatten_treats_every_whitespace_kind_as_blank() {
    let mut chars: Vec<char> = vec!['+'; DIGIT_HEIGHT * DIGIT_LENGTH];
    chars[0] = '\n';
    chars[1] = '\t';
    chars[2] = '\u{00A0}';
    chars[3] = '\u{2003}';
    chars[4] = ' ';
    let digit = Digit::new(chars.into_iter().collect::<String>());
    let features = digit.flatten();
    assert_eq!(&features[0..6], &[0, 0, 0, 0, 0, 1]);
    let zeros = features.iter().filter(|&&b| b == 0).count();
    assert_eq!(zeros, 5);
}
