use pallet_connectfour::connectfour::Logic;

fn empty() -> [[u8; 6]; 7] {
    [[0u8; 6]; 7]
}

fn line(x: usize, y: usize, dx: i32, dy: i32, player: u8) -> [[u8; 6]; 7] {
    let mut board = empty();
    for k in 0..4 {
        let cx = (x as i32 + k * dx) as usize;
        let cy = (y as i32 + k * dy) as usize;
        board[cx][cy] = player;
    }
    board
}

#[test]
fn empty_grid_has_no_winner_and_is_not_full() {
    assert!(!Logic::evaluate(empty(), 1));
    assert!(!Logic::evaluate(empty(), 2));
    assert!(!Logic::full(empty()));
}

#[test]
fn horizontal_runs_are_found_everywhere() {
    for player in 1..=2u8 {
        for y in 0..6 {
            for x in 0..4 {
                let board = line(x, y, 1, 0, player);
                assert!(Logic::evaluate(board, player));
                assert!(!Logic::evaluate(board, 3 - player));
            }
        }
    }
}

#[test]
fn vertical_runs_are_found_everywhere() {
    for player in 1..=2u8 {
        for x in 0..7 {
            for y in 0..3 {
                let board = line(x, y, 0, 1, player);
                assert!(Logic::evaluate(board, player));
                assert!(!Logic::evaluate(board, 3 - player));
            }
        }
    }
}

#[test]
fn diagonal_runs_are_found_everywhere() {
    for player in 1..=2u8 {
        for x in 0..4 {
            for y in 0..3 {
                let falling = line(x, y, 1, 1, player);
                assert!(Logic::evaluate(falling, player));
                assert!(!Logic::evaluate(falling, 3 - player));
            }
            for y in 3..6 {
                let rising = line(x, y, 1, -1, player);
                assert!(Logic::evaluate(rising, player));
                assert!(!Logic::evaluate(rising, 3 - player));
            }
        }
    }
}

#[test]
fn runs_in_the_corners_are_found() {
    assert!(Logic::evaluate(line(3, 0, 1, 0, 1), 1));
    assert!(Logic::evaluate(line(3, 5, 1, 0, 2), 2));
    assert!(Logic::evaluate(line(6, 2, 0, 1, 1), 1));
    assert!(Logic::evaluate(line(0, 0, 0, 1, 2), 2));
    assert!(Logic::evaluate(line(3, 2, 1, 1, 1), 1));
    assert!(Logic::evaluate(line(3, 3, 1, -1, 2), 2));
}

#[test]
fn three_in_a_row_is_no_win() {
    let mut board = empty();
    board[0][5] = 1;
    board[1][5] = 1;
    board[2][5] = 1;
    board[3][5] = 2;
    board[4][5] = 1;
    assert!(!Logic::evaluate(board, 1));
    assert!(!Logic::evaluate(board, 2));
}

#[test]
fn stone_falls_to_the_bottom_and_stacks() {
    let mut board = empty();
    assert!(Logic::add_stone(&mut board, 3, 1));
    assert_eq!(board[3], [0, 0, 0, 0, 0, 1]);
    assert!(Logic::add_stone(&mut board, 3, 2));
    assert_eq!(board[3], [0, 0, 0, 0, 2, 1]);
    assert!(Logic::add_stone(&mut board, 6, 2));
    assert_eq!(board[6], [0, 0, 0, 0, 0, 2]);
    for x in [0usize, 1, 2, 4, 5] {
        assert_eq!(board[x], [0u8; 6]);
    }
}

#[test]
fn four_on_the_bottom_row_win() {
    let mut board = empty();
    for column in 0..4u8 {
        assert!(!Logic::evaluate(board, 1));
        assert!(Logic::add_stone(&mut board, column, 1));
    }
    assert!(Logic::evaluate(board, 1));
    assert!(!Logic::evaluate(board, 2));
}

#[test]
fn seventh_stone_in_a_column_is_refused() {
    let mut board = empty();
    for n in 0..6u8 {
        assert!(Logic::add_stone(&mut board, 2, 1 + n % 2));
    }
    assert_eq!(board[2], [2, 1, 2, 1, 2, 1]);
    let before = board;
    assert!(!Logic::add_stone(&mut board, 2, 1));
    assert_eq!(board, before);
    assert!(!Logic::add_stone(&mut board, 2, 2));
    assert_eq!(board, before);
}

#[test]
fn full_needs_six_stones_in_every_column() {
    let mut board = empty();
    for column in 0..7u8 {
        for n in 0..6u8 {
            assert!(!Logic::full(board));
            assert!(Logic::add_stone(&mut board, column, 1 + (n + column) % 2));
        }
    }
    assert!(Logic::full(board));
    board[4][0] = 0;
    assert!(!Logic::full(board));
}
