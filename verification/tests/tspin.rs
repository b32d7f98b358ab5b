use retris_core::active::ActivePiece;
use retris_core::board::Board;
use retris_core::piece::{Rotation, Tetromino};
use retris_core::tspin::{detect_tspin, TSpin};

fn t_piece(rot: Rotation, x: i8, y: i8) -> ActivePiece {
    ActivePiece { kind: Tetromino::T, rot, x, y }
}

/// A T-Spin Double slot: the T (pointing down) rests with its box corner at
/// (3, 0); corners A (3, 2), C (3, 0) and D (5, 0) are filled, B (5, 2) is not.
fn tsd_setup() -> (Board, ActivePiece) {
    let mut board = Board::new();
    for x in 0..10 {
        if x != 4 {
            board.set(x, 0, Some(Tetromino::J));
        }
        if !(3..=5).contains(&x) {
            board.set(x, 1, Some(Tetromino::L));
        }
    }
    board.set(3, 2, Some(Tetromino::S));
    (board, t_piece(Rotation::Flip, 3, 0))
}

/// A mini against the left wall: both back corners lie outside the field,
/// one front corner is filled.
fn wall_mini_setup() -> (Board, ActivePiece) {
    let mut board = Board::new();
    board.set(1, 0, Some(Tetromino::J));
    (board, t_piece(Rotation::Cw, -1, 0))
}

#[test]
fn tsd_shape_after_rotation_is_full_tspin() {
    let (board, piece) = tsd_setup();
    for kick in 1..=4 {
        assert_eq!(detect_tspin(&board, &piece, true, kick), TSpin::Full, "kick={kick}");
    }
}

#[test]
fn all_four_corners_is_full_tspin() {
    let (mut board, piece) = tsd_setup();
    board.set(5, 2, Some(Tetromino::S));
    assert_eq!(detect_tspin(&board, &piece, true, 1), TSpin::Full);
}

#[test]
fn front1_back2_is_mini() {
    let (board, piece) = wall_mini_setup();
    assert_eq!(detect_tspin(&board, &piece, true, 2), TSpin::Mini);
}

#[test]
fn kick5_upgrades_mini_condition_to_full() {
    let (board, piece) = wall_mini_setup();
    assert_eq!(detect_tspin(&board, &piece, true, 5), TSpin::Full);
}

#[test]
fn no_rotation_is_none_even_on_tspin_shape() {
    let (board, piece) = tsd_setup();
    assert_eq!(detect_tspin(&board, &piece, false, 1), TSpin::NoSpin);
}

#[test]
fn non_t_piece_is_none() {
    let (board, t) = tsd_setup();
    for kind in [Tetromino::I, Tetromino::O, Tetromino::S, Tetromino::Z, Tetromino::J, Tetromino::L] {
        let piece = ActivePiece { kind, ..t };
        assert_eq!(detect_tspin(&board, &piece, true, 1), TSpin::NoSpin, "{kind:?}");
    }
}

#[test]
fn fewer_than_three_corners_is_none() {
    let mut board = Board::new();
    board.set(3, 0, Some(Tetromino::J));
    board.set(5, 0, Some(Tetromino::J));
    let piece = t_piece(Rotation::Flip, 3, 0);
    assert_eq!(detect_tspin(&board, &piece, true, 1), TSpin::NoSpin);
}

#[test]
fn floor_counts_as_occupied_corners() {
    let mut board = Board::new();
    board.set(3, 1, Some(Tetromino::J));
    let piece = t_piece(Rotation::Spawn, 3, -1);
    assert_eq!(detect_tspin(&board, &piece, true, 1), TSpin::Mini);
}

#[test]
fn right_wall_counts_as_occupied_corners() {
    let mut board = Board::new();
    board.set(8, 0, Some(Tetromino::J));
    let piece = t_piece(Rotation::Ccw, 8, 0);
    assert_eq!(detect_tspin(&board, &piece, true, 1), TSpin::Mini);
}
