use retris_core::active::ActivePiece;
use retris_core::piece::{Rotation, Tetromino};

fn sorted(mut cells: [(i8, i8); 4]) -> [(i8, i8); 4] {
    cells.sort_unstable();
    cells
}

fn assert_spawn_cells(kind: Tetromino, expected: [(i8, i8); 4]) {
    assert_eq!(
        sorted(ActivePiece::spawn(kind).cells()),
        sorted(expected),
        "spawn cells of {kind:?} do not match"
    );
}

#[test]
fn spawn_starts_in_spawn_rotation_at_spec_position() {
    let piece = ActivePiece::spawn(Tetromino::T);
    assert_eq!(piece.kind, Tetromino::T);
    assert_eq!(piece.rot, Rotation::Spawn);
    assert_eq!((piece.x, piece.y), (3, 19));

    let piece = ActivePiece::spawn(Tetromino::I);
    assert_eq!((piece.x, piece.y), (3, 18));

    let piece = ActivePiece::spawn(Tetromino::O);
    assert_eq!((piece.x, piece.y), (4, 20));
}

#[test]
fn spawn_cells_match_spec() {
    assert_spawn_cells(Tetromino::I, [(3, 20), (4, 20), (5, 20), (6, 20)]);
    assert_spawn_cells(Tetromino::O, [(4, 20), (5, 20), (4, 21), (5, 21)]);
    assert_spawn_cells(Tetromino::T, [(3, 20), (4, 20), (5, 20), (4, 21)]);
    assert_spawn_cells(Tetromino::S, [(3, 20), (4, 20), (4, 21), (5, 21)]);
    assert_spawn_cells(Tetromino::Z, [(4, 20), (5, 20), (3, 21), (4, 21)]);
    assert_spawn_cells(Tetromino::J, [(3, 20), (4, 20), (5, 20), (3, 21)]);
    assert_spawn_cells(Tetromino::L, [(3, 20), (4, 20), (5, 20), (5, 21)]);
}

#[test]
fn cells_translate_box_coords_by_position() {
    let piece = ActivePiece { kind: Tetromino::T, rot: Rotation::Cw, x: 2, y: 5 };
    assert_eq!(sorted(piece.cells()), sorted([(3, 5), (3, 6), (4, 6), (3, 7)]));
}

#[test]
fn cells_allow_negative_box_origin() {
    let piece = ActivePiece { kind: Tetromino::I, rot: Rotation::Ccw, x: -1, y: 0 };
    assert_eq!(sorted(piece.cells()), sorted([(0, 0), (0, 1), (0, 2), (0, 3)]));
}
