use sudoku_snark::{read_grid, write_grid, GridError};

#[test]
fn write_then_read_two_by_two() {
    let g = vec![vec![1u8, 0], vec![0, 2]];
    let text = write_grid(&g);
    assert_eq!(text, b"1 0\n0 2\n".to_vec());
    assert_eq!(read_grid(&text, 2), Ok(g));
}

#[test]
fn write_then_read_one_by_one() {
    let g = vec![vec![7u8]];
    let text = write_grid(&g);
    assert_eq!(text, b"7\n".to_vec());
    assert_eq!(read_grid(&text, 1), Ok(g));
}

#[test]
fn write_then_read_large_values() {
    let g = vec![vec![255u8, 100, 9], vec![10, 0, 99], vec![1, 200, 250]];
    let text = write_grid(&g);
    assert_eq!(read_grid(&text, 3), Ok(g));
}

#[test]
fn read_skips_blank_lines_and_accepts_missing_newline() {
    let text = b"\n1  2\r\n\n3\t4".to_vec();
    assert_eq!(read_grid(&text, 2), Ok(vec![vec![1u8, 2], vec![3, 4]]));
}

#[test]
fn read_rejects_bad_cells() {
    assert_eq!(read_grid(&b"1 x\n0 2\n".to_vec(), 2), Err(GridError::InvalidCell));
    assert_eq!(read_grid(&b"1 256\n0 2\n".to_vec(), 2), Err(GridError::InvalidCell));
    assert_eq!(read_grid(&b"-1 0\n0 2\n".to_vec(), 2), Err(GridError::InvalidCell));
}

#[test]
fn read_rejects_wrong_shape() {
    assert_eq!(read_grid(&b"1 0 3\n0 2 3\n".to_vec(), 2), Err(GridError::WrongShape));
    assert_eq!(read_grid(&b"1 0\n".to_vec(), 2), Err(GridError::WrongShape));
    assert_eq!(read_grid(&b"1 0\n0 2\n1 1\n".to_vec(), 2), Err(GridError::WrongShape));
}

#[test]
fn empty_grid_is_one_newline() {
    let g: Vec<Vec<u8>> = vec![];
    let text = write_grid(&g);
    assert_eq!(text, b"\n".to_vec());
    assert_eq!(read_grid(&text, 0), Ok(g));
}

#[test]
fn read_accepts_vertical_tab_and_form_feed() {
    let text = b"1\x0b2\n3\x0c4\n".to_vec();
    assert_eq!(read_grid(&text, 2), Ok(vec![vec![1u8, 2], vec![3, 4]]));
}
