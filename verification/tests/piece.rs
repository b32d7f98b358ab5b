use retris_core::piece::{Rotation, Tetromino};

fn sorted(mut cells: [(i8, i8); 4]) -> [(i8, i8); 4] {
    cells.sort_unstable();
    cells
}

fn assert_shape(kind: Tetromino, rot: Rotation, expected: [(i8, i8); 4]) {
    assert_eq!(
        sorted(kind.cells(rot)),
        sorted(expected),
        "{kind:?} in state {rot:?} does not match the shape table"
    );
}

#[test]
fn shape_i() {
    assert_shape(Tetromino::I, Rotation::Spawn, [(0, 2), (1, 2), (2, 2), (3, 2)]);
    assert_shape(Tetromino::I, Rotation::Cw, [(2, 0), (2, 1), (2, 2), (2, 3)]);
    assert_shape(Tetromino::I, Rotation::Flip, [(0, 1), (1, 1), (2, 1), (3, 1)]);
    assert_shape(Tetromino::I, Rotation::Ccw, [(1, 0), (1, 1), (1, 2), (1, 3)]);
}

#[test]
fn shape_o() {
    let cells = [(0, 0), (1, 0), (0, 1), (1, 1)];
    assert_shape(Tetromino::O, Rotation::Spawn, cells);
    assert_shape(Tetromino::O, Rotation::Cw, cells);
    assert_shape(Tetromino::O, Rotation::Flip, cells);
    assert_shape(Tetromino::O, Rotation::Ccw, cells);
}

#[test]
fn shape_t() {
    assert_shape(Tetromino::T, Rotation::Spawn, [(0, 1), (1, 1), (2, 1), (1, 2)]);
    assert_shape(Tetromino::T, Rotation::Cw, [(1, 0), (1, 1), (2, 1), (1, 2)]);
    assert_shape(Tetromino::T, Rotation::Flip, [(0, 1), (1, 1), (2, 1), (1, 0)]);
    assert_shape(Tetromino::T, Rotation::Ccw, [(1, 0), (0, 1), (1, 1), (1, 2)]);
}

#[test]
fn shape_s() {
    assert_shape(Tetromino::S, Rotation::Spawn, [(0, 1), (1, 1), (1, 2), (2, 2)]);
    assert_shape(Tetromino::S, Rotation::Cw, [(1, 2), (1, 1), (2, 1), (2, 0)]);
    assert_shape(Tetromino::S, Rotation::Flip, [(0, 0), (1, 0), (1, 1), (2, 1)]);
    assert_shape(Tetromino::S, Rotation::Ccw, [(0, 2), (0, 1), (1, 1), (1, 0)]);
}

#[test]
fn shape_z() {
    assert_shape(Tetromino::Z, Rotation::Spawn, [(1, 1), (2, 1), (0, 2), (1, 2)]);
    assert_shape(Tetromino::Z, Rotation::Cw, [(2, 2), (1, 1), (2, 1), (1, 0)]);
    assert_shape(Tetromino::Z, Rotation::Flip, [(0, 1), (1, 1), (1, 0), (2, 0)]);
    assert_shape(Tetromino::Z, Rotation::Ccw, [(1, 2), (0, 1), (1, 1), (0, 0)]);
}

#[test]
fn shape_j() {
    assert_shape(Tetromino::J, Rotation::Spawn, [(0, 1), (1, 1), (2, 1), (0, 2)]);
    assert_shape(Tetromino::J, Rotation::Cw, [(1, 2), (2, 2), (1, 1), (1, 0)]);
    assert_shape(Tetromino::J, Rotation::Flip, [(0, 1), (1, 1), (2, 1), (2, 0)]);
    assert_shape(Tetromino::J, Rotation::Ccw, [(1, 2), (1, 1), (0, 0), (1, 0)]);
}

#[test]
fn shape_l() {
    assert_shape(Tetromino::L, Rotation::Spawn, [(0, 1), (1, 1), (2, 1), (2, 2)]);
    assert_shape(Tetromino::L, Rotation::Cw, [(1, 2), (1, 1), (1, 0), (2, 0)]);
    assert_shape(Tetromino::L, Rotation::Flip, [(0, 1), (1, 1), (2, 1), (0, 0)]);
    assert_shape(Tetromino::L, Rotation::Ccw, [(0, 2), (1, 2), (1, 1), (1, 0)]);
}

#[test]
fn rotation_cw_cycles_through_four_states() {
    assert_eq!(Rotation::Spawn.cw(), Rotation::Cw);
    assert_eq!(Rotation::Cw.cw(), Rotation::Flip);
    assert_eq!(Rotation::Flip.cw(), Rotation::Ccw);
    assert_eq!(Rotation::Ccw.cw(), Rotation::Spawn);
}

#[test]
fn rotation_ccw_cycles_through_four_states() {
    assert_eq!(Rotation::Spawn.ccw(), Rotation::Ccw);
    assert_eq!(Rotation::Ccw.ccw(), Rotation::Flip);
    assert_eq!(Rotation::Flip.ccw(), Rotation::Cw);
    assert_eq!(Rotation::Cw.ccw(), Rotation::Spawn);
}

#[test]
fn rotation_cw_then_ccw_is_identity() {
    for rot in [Rotation::Spawn, Rotation::Cw, Rotation::Flip, Rotation::Ccw] {
        assert_eq!(rot.cw().ccw(), rot);
        assert_eq!(rot.ccw().cw(), rot);
    }
}

#[test]
fn rotation_four_quarter_turns_return_to_start() {
    for rot in [Rotation::Spawn, Rotation::Cw, Rotation::Flip, Rotation::Ccw] {
        assert_eq!(rot.cw().cw().cw().cw(), rot);
        assert_eq!(rot.ccw().ccw().ccw().ccw(), rot);
    }
}

#[test]
fn spawn_positions_match_spec() {
    assert_eq!(Tetromino::I.spawn_pos(), (3, 18));
    assert_eq!(Tetromino::O.spawn_pos(), (4, 20));
    assert_eq!(Tetromino::T.spawn_pos(), (3, 19));
    assert_eq!(Tetromino::S.spawn_pos(), (3, 19));
    assert_eq!(Tetromino::Z.spawn_pos(), (3, 19));
    assert_eq!(Tetromino::J.spawn_pos(), (3, 19));
    assert_eq!(Tetromino::L.spawn_pos(), (3, 19));
}
