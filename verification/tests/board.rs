use retris_core::active::ActivePiece;
use retris_core::board::{Board, FIELD_HEIGHT, FIELD_WIDTH, VISIBLE_HEIGHT};
use retris_core::piece::{Rotation, Tetromino};

const ALL_KINDS: [Tetromino; 7] =
    [Tetromino::I, Tetromino::O, Tetromino::T, Tetromino::S, Tetromino::Z, Tetromino::J, Tetromino::L];

fn fill_row(board: &mut Board, y: i8, kind: Tetromino) {
    for x in 0..10 {
        board.set(x, y, Some(kind));
    }
}

fn occupied_count(board: &Board) -> usize {
    (0..40)
        .flat_map(|y| (0..10).map(move |x| (x, y)))
        .filter(|&(x, y)| board.is_occupied(x, y))
        .count()
}

#[test]
fn field_dimensions_match_spec() {
    assert_eq!(FIELD_WIDTH, 10);
    assert_eq!(FIELD_HEIGHT, 40);
    assert_eq!(VISIBLE_HEIGHT, 20);
}

#[test]
fn new_board_is_empty() {
    let board = Board::new();
    for y in 0..40 {
        for x in 0..10 {
            assert_eq!(board.get(x, y), None, "({x}, {y}) is not empty");
            assert!(!board.is_occupied(x, y), "({x}, {y}) counts as occupied");
        }
    }
}

#[test]
fn default_board_is_empty() {
    assert!(Board::default().is_empty());
    assert_eq!(Board::default(), Board::new());
}

#[test]
fn outside_field_is_occupied() {
    let board = Board::new();
    assert!(board.is_occupied(-1, 0));
    assert!(board.is_occupied(10, 0));
    assert!(board.is_occupied(0, -1));
    assert!(board.is_occupied(5, -1));
    assert!(board.is_occupied(0, 40));
    assert!(board.is_occupied(5, 100));
    assert!(board.is_occupied(-1, -1));
    assert!(board.is_occupied(10, 40));
}

#[test]
fn get_outside_field_is_none() {
    let board = Board::new();
    assert_eq!(board.get(-1, 0), None);
    assert_eq!(board.get(10, 0), None);
    assert_eq!(board.get(0, -1), None);
    assert_eq!(board.get(0, 40), None);
}

#[test]
fn set_outside_field_changes_nothing() {
    let mut board = Board::new();
    board.set(-1, 0, Some(Tetromino::T));
    board.set(10, 39, Some(Tetromino::T));
    board.set(0, 40, Some(Tetromino::T));
    assert_eq!(board, Board::new());
}

#[test]
fn set_get_roundtrip() {
    let mut board = Board::new();
    board.set(3, 5, Some(Tetromino::T));
    assert_eq!(board.get(3, 5), Some(Tetromino::T));
    assert!(board.is_occupied(3, 5));
    assert_eq!(board.get(2, 5), None);
    assert_eq!(board.get(3, 4), None);
    board.set(3, 5, None);
    assert_eq!(board.get(3, 5), None);
    assert!(!board.is_occupied(3, 5));
}

#[test]
fn set_works_at_field_corners() {
    let mut board = Board::new();
    board.set(0, 0, Some(Tetromino::I));
    board.set(9, 39, Some(Tetromino::L));
    assert_eq!(board.get(0, 0), Some(Tetromino::I));
    assert_eq!(board.get(9, 39), Some(Tetromino::L));
}

#[test]
fn all_spawn_pieces_fit_on_empty_board() {
    let board = Board::new();
    for kind in ALL_KINDS {
        assert!(board.fits(&ActivePiece::spawn(kind)), "{kind:?} cannot spawn on an empty board");
    }
}

#[test]
fn fits_rejects_left_wall_collision() {
    let board = Board::new();
    let piece = ActivePiece { kind: Tetromino::T, rot: Rotation::Spawn, x: -1, y: 5 };
    assert!(!board.fits(&piece));
    let piece = ActivePiece { x: 0, ..piece };
    assert!(board.fits(&piece));
}

#[test]
fn fits_rejects_right_wall_collision() {
    let board = Board::new();
    let piece = ActivePiece { kind: Tetromino::T, rot: Rotation::Spawn, x: 8, y: 5 };
    assert!(!board.fits(&piece));
    let piece = ActivePiece { x: 7, ..piece };
    assert!(board.fits(&piece));
}

#[test]
fn fits_rejects_floor_collision() {
    let board = Board::new();
    let piece = ActivePiece { kind: Tetromino::T, rot: Rotation::Spawn, x: 3, y: -1 };
    assert!(board.fits(&piece));
    let piece = ActivePiece { y: -2, ..piece };
    assert!(!board.fits(&piece));
}

#[test]
fn fits_rejects_above_field_top() {
    let board = Board::new();
    let piece = ActivePiece { kind: Tetromino::O, rot: Rotation::Spawn, x: 4, y: 38 };
    assert!(board.fits(&piece));
    let piece = ActivePiece { y: 39, ..piece };
    assert!(!board.fits(&piece));
}

#[test]
fn fits_rejects_existing_block() {
    let mut board = Board::new();
    board.set(4, 20, Some(Tetromino::J));
    assert!(!board.fits(&ActivePiece::spawn(Tetromino::T)));
    let mut board = Board::new();
    board.set(4, 22, Some(Tetromino::J));
    assert!(board.fits(&ActivePiece::spawn(Tetromino::T)));
}

#[test]
fn clear_full_lines_returns_zero_when_no_full_row() {
    let mut board = Board::new();
    board.set(0, 0, Some(Tetromino::T));
    for x in 0..9 {
        board.set(x, 1, Some(Tetromino::J));
    }
    let before = board.clone();
    assert_eq!(board.clear_full_lines(), 0);
    assert_eq!(board, before, "a board without full rows must not change");
}

#[test]
fn clear_full_lines_clears_single_row_and_shifts_down() {
    let mut board = Board::new();
    fill_row(&mut board, 0, Tetromino::J);
    board.set(0, 1, Some(Tetromino::T));
    board.set(5, 2, Some(Tetromino::L));
    assert_eq!(board.clear_full_lines(), 1);
    assert_eq!(board.get(0, 0), Some(Tetromino::T));
    assert_eq!(board.get(5, 1), Some(Tetromino::L));
    assert_eq!(board.get(0, 1), None);
    assert_eq!(board.get(5, 2), None);
    assert_eq!(occupied_count(&board), 2);
}

#[test]
fn clear_full_lines_clears_contiguous_rows() {
    let mut board = Board::new();
    fill_row(&mut board, 0, Tetromino::I);
    fill_row(&mut board, 1, Tetromino::O);
    board.set(2, 2, Some(Tetromino::S));
    assert_eq!(board.clear_full_lines(), 2);
    assert_eq!(board.get(2, 0), Some(Tetromino::S));
    assert_eq!(occupied_count(&board), 1);
}

#[test]
fn clear_full_lines_clears_non_contiguous_rows() {
    let mut board = Board::new();
    fill_row(&mut board, 0, Tetromino::I);
    board.set(0, 1, Some(Tetromino::T));
    board.set(9, 1, Some(Tetromino::Z));
    fill_row(&mut board, 2, Tetromino::O);
    board.set(4, 3, Some(Tetromino::L));
    assert_eq!(board.clear_full_lines(), 2);
    assert_eq!(board.get(0, 0), Some(Tetromino::T));
    assert_eq!(board.get(9, 0), Some(Tetromino::Z));
    assert_eq!(board.get(1, 0), None);
    assert_eq!(board.get(4, 1), Some(Tetromino::L));
    assert_eq!(occupied_count(&board), 3);
}

#[test]
fn clear_full_lines_shifts_top_buffer_row() {
    let mut board = Board::new();
    fill_row(&mut board, 0, Tetromino::J);
    board.set(3, 39, Some(Tetromino::I));
    assert_eq!(board.clear_full_lines(), 1);
    assert_eq!(board.get(3, 38), Some(Tetromino::I));
    assert_eq!(board.get(3, 39), None);
}

#[test]
fn clear_full_lines_clears_entire_full_board() {
    let mut board = Board::new();
    for y in 0..40 {
        fill_row(&mut board, y, Tetromino::L);
    }
    assert_eq!(board.clear_full_lines(), 40);
    assert!(board.is_empty());
}

#[test]
fn clearing_twice_removes_nothing_more() {
    let mut board = Board::new();
    fill_row(&mut board, 0, Tetromino::I);
    fill_row(&mut board, 3, Tetromino::O);
    board.set(7, 1, Some(Tetromino::S));
    board.set(2, 4, Some(Tetromino::Z));
    assert_eq!(board.clear_full_lines(), 2);
    let once = board;
    assert_eq!(board.clear_full_lines(), 0);
    assert_eq!(board, once);
}

#[test]
fn is_empty_reports_board_state() {
    let mut board = Board::new();
    assert!(board.is_empty());
    board.set(4, 20, Some(Tetromino::T));
    assert!(!board.is_empty());
    board.set(4, 20, None);
    assert!(board.is_empty());
}

#[test]
fn clear_full_lines_then_board_is_empty_for_perfect_clear() {
    let mut board = Board::new();
    fill_row(&mut board, 0, Tetromino::I);
    assert_eq!(board.clear_full_lines(), 1);
    assert!(board.is_empty());
}

#[test]
fn place_writes_piece_kind_to_all_four_cells() {
    let mut board = Board::new();
    board.place(&ActivePiece::spawn(Tetromino::T));
    for (x, y) in [(3, 20), (4, 20), (5, 20), (4, 21)] {
        assert_eq!(board.get(x, y), Some(Tetromino::T), "({x}, {y})");
    }
    assert_eq!(occupied_count(&board), 4);
}

#[test]
fn placed_piece_no_longer_fits() {
    let mut board = Board::new();
    let piece = ActivePiece { kind: Tetromino::S, rot: Rotation::Cw, x: 2, y: 0 };
    assert!(board.fits(&piece));
    board.place(&piece);
    assert!(!board.fits(&piece));
}
