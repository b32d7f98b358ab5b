//! Super Rotation System: rotation with wall kicks.
use vstd::prelude::*;

use crate::active::ActivePiece;
use crate::board::{Board, fits_in};
use crate::piece::{Rotation, Tetromino, lemma_shape_in_box};

verus! {

/// Rotation direction.
#[derive(Debug, Clone, Copy, PartialEq, Eq, Structural)]
pub enum RotateDir {
    /// Clockwise.
    Cw,
    /// Counter-clockwise.
    Ccw,
}

impl RotateDir {
    /// The state after a quarter turn in this direction.
    pub open spec fn spec_apply(self, rot: Rotation) -> Rotation {
        match self {
            RotateDir::Cw => rot.spec_cw(),
            RotateDir::Ccw => rot.spec_ccw(),
        }
    }

    /// The opposite direction.
    pub open spec fn reversed(self) -> RotateDir {
        match self {
            RotateDir::Cw => RotateDir::Ccw,
            RotateDir::Ccw => RotateDir::Cw,
        }
    }

    /// The state after a quarter turn in this direction.
    #[verifier::when_used_as_spec(spec_apply)]
    pub fn apply(self, rot: Rotation) -> (r: Rotation)
        ensures
            r == self.spec_apply(rot),
    {
        match self {
            RotateDir::Cw => rot.cw(),
            RotateDir::Ccw => rot.ccw(),
        }
    }
}

/// Outcome of a rotation attempt. Success resets the lock delay; a blocked
/// rotation and a rotation input on O do not.
#[derive(Debug, Clone, Copy, PartialEq, Eq, Structural)]
pub enum RotateOutcome {
    /// Rotated; `kick` is the kick test (1 to 5) that succeeded.
    Rotated {
        /// The rotated piece.
        piece: ActivePiece,
        /// The successful kick test (1 to 5).
        kick: u8,
    },
    /// All five tests collide; nothing changes.
    Blocked,
    /// Rotation input on O: nothing changes, neither success nor failure.
    IgnoredO,
}

/// Kick offsets `(dx, dy)` of tests 1 to 5 for turning from `from` in
/// direction `dir`: the I table for I, the shared table for J, L, S, T, Z.
pub open spec fn kick_table(kind: Tetromino, from: Rotation, dir: RotateDir) -> Seq<(i8, i8)> {
    match (kind == Tetromino::I, from, dir) {
        (true, Rotation::Spawn, RotateDir::Cw) => seq![(0i8, 0i8), (-2i8, 0i8), (1i8, 0i8), (-2i8, -1i8), (1i8, 2i8)],
        (true, Rotation::Spawn, RotateDir::Ccw) => seq![(0i8, 0i8), (-1i8, 0i8), (2i8, 0i8), (-1i8, 2i8), (2i8, -1i8)],
        (true, Rotation::Cw, RotateDir::Cw) => seq![(0i8, 0i8), (-1i8, 0i8), (2i8, 0i8), (-1i8, 2i8), (2i8, -1i8)],
        (true, Rotation::Cw, RotateDir::Ccw) => seq![(0i8, 0i8), (2i8, 0i8), (-1i8, 0i8), (2i8, 1i8), (-1i8, -2i8)],
        (true, Rotation::Flip, RotateDir::Cw) => seq![(0i8, 0i8), (2i8, 0i8), (-1i8, 0i8), (2i8, 1i8), (-1i8, -2i8)],
        (true, Rotation::Flip, RotateDir::Ccw) => seq![(0i8, 0i8), (1i8, 0i8), (-2i8, 0i8), (1i8, -2i8), (-2i8, 1i8)],
        (true, Rotation::Ccw, RotateDir::Cw) => seq![(0i8, 0i8), (1i8, 0i8), (-2i8, 0i8), (1i8, -2i8), (-2i8, 1i8)],
        (true, Rotation::Ccw, RotateDir::Ccw) => seq![(0i8, 0i8), (-2i8, 0i8), (1i8, 0i8), (-2i8, -1i8), (1i8, 2i8)],
        (false, Rotation::Spawn, RotateDir::Cw) => seq![(0i8, 0i8), (-1i8, 0i8), (-1i8, 1i8), (0i8, -2i8), (-1i8, -2i8)],
        (false, Rotation::Spawn, RotateDir::Ccw) => seq![(0i8, 0i8), (1i8, 0i8), (1i8, 1i8), (0i8, -2i8), (1i8, -2i8)],
        (false, Rotation::Cw, RotateDir::Cw) => seq![(0i8, 0i8), (1i8, 0i8), (1i8, -1i8), (0i8, 2i8), (1i8, 2i8)],
        (false, Rotation::Cw, RotateDir::Ccw) => seq![(0i8, 0i8), (1i8, 0i8), (1i8, -1i8), (0i8, 2i8), (1i8, 2i8)],
        (false, Rotation::Flip, RotateDir::Cw) => seq![(0i8, 0i8), (1i8, 0i8), (1i8, 1i8), (0i8, -2i8), (1i8, -2i8)],
        (false, Rotation::Flip, RotateDir::Ccw) => seq![(0i8, 0i8), (-1i8, 0i8), (-1i8, 1i8), (0i8, -2i8), (-1i8, -2i8)],
        (false, Rotation::Ccw, RotateDir::Cw) => seq![(0i8, 0i8), (-1i8, 0i8), (-1i8, -1i8), (0i8, 2i8), (-1i8, 2i8)],
        (false, Rotation::Ccw, RotateDir::Ccw) => seq![(0i8, 0i8), (-1i8, 0i8), (-1i8, -1i8), (0i8, 2i8), (-1i8, 2i8)],
    }
}

/// Row of the kick tables for a transition: two rows per starting state,
/// clockwise first.
pub open spec fn transition_row(from: Rotation, dir: RotateDir) -> int {
    let f = match from {
        Rotation::Spawn => 0int,
        Rotation::Cw => 1,
        Rotation::Flip => 2,
        Rotation::Ccw => 3,
    };
    let d = match dir {
        RotateDir::Cw => 0int,
        RotateDir::Ccw => 1,
    };
    f * 2 + d
}

/// Row of the kick tables for the transition `(from, dir)`.
fn transition_index(from: Rotation, dir: RotateDir) -> (r: usize)
    ensures
        r == transition_row(from, dir),
        r < 8,
{
    let f: usize = match from {
        Rotation::Spawn => 0,
        Rotation::Cw => 1,
        Rotation::Flip => 2,
        Rotation::Ccw => 3,
    };
    let d: usize = match dir {
        RotateDir::Cw => 0,
        RotateDir::Ccw => 1,
    };
    f * 2 + d
}

/// The kick offsets (tests 1 to 5) for turning `kind` from `from` in
/// direction `dir`: the I table for I, the shared table for J, L, S, T, Z.
pub fn kicks(kind: Tetromino, from: Rotation, dir: RotateDir) -> (r: [(i8, i8); 5])
    ensures
        r@ == kick_table(kind, from, dir),
{
    let row = transition_index(from, dir);
    let r: [(i8, i8); 5] = match kind {
        Tetromino::I => match row {
            0 => [(0, 0), (-2, 0), (1, 0), (-2, -1), (1, 2)],
            1 => [(0, 0), (-1, 0), (2, 0), (-1, 2), (2, -1)],
            2 => [(0, 0), (-1, 0), (2, 0), (-1, 2), (2, -1)],
            3 => [(0, 0), (2, 0), (-1, 0), (2, 1), (-1, -2)],
            4 => [(0, 0), (2, 0), (-1, 0), (2, 1), (-1, -2)],
            5 => [(0, 0), (1, 0), (-2, 0), (1, -2), (-2, 1)],
            6 => [(0, 0), (1, 0), (-2, 0), (1, -2), (-2, 1)],
            _ => [(0, 0), (-2, 0), (1, 0), (-2, -1), (1, 2)],
        },
        _ => match row {
            0 => [(0, 0), (-1, 0), (-1, 1), (0, -2), (-1, -2)],
            1 => [(0, 0), (1, 0), (1, 1), (0, -2), (1, -2)],
            2 => [(0, 0), (1, 0), (1, -1), (0, 2), (1, 2)],
            3 => [(0, 0), (1, 0), (1, -1), (0, 2), (1, 2)],
            4 => [(0, 0), (1, 0), (1, 1), (0, -2), (1, -2)],
            5 => [(0, 0), (-1, 0), (-1, 1), (0, -2), (-1, -2)],
            6 => [(0, 0), (-1, 0), (-1, -1), (0, 2), (-1, 2)],
            _ => [(0, 0), (-1, 0), (-1, -1), (0, 2), (-1, 2)],
        },
    };
    assert(r@ =~= kick_table(kind, from, dir));
    r
}

/// Reversing a transition negates each kick offset.
pub proof fn lemma_reverse_kicks_negated(kind: Tetromino, from: Rotation, dir: RotateDir, i: int)
    requires
        0 <= i < 5,
    ensures
        kick_table(kind, dir.spec_apply(from), dir.reversed())[i].0 == -kick_table(kind, from, dir)[i].0,
        kick_table(kind, dir.spec_apply(from), dir.reversed())[i].1 == -kick_table(kind, from, dir)[i].1,
        dir.reversed().spec_apply(dir.spec_apply(from)) == from,
{
}

/// Test `i` (0-based): the piece turned and moved by the `i`-th offset.
pub open spec fn kick_candidate(piece: ActivePiece, dir: RotateDir, i: int) -> ActivePiece {
    let off = kick_table(piece.kind, piece.rot, dir)[i];
    ActivePiece {
        kind: piece.kind,
        rot: dir.spec_apply(piece.rot),
        x: (piece.x + off.0) as i8,
        y: (piece.y + off.1) as i8,
    }
}

/// Test `i` can be computed without leaving the `i8` range.
pub open spec fn kick_in_range(piece: ActivePiece, dir: RotateDir, i: int) -> bool {
    let off = kick_table(piece.kind, piece.rot, dir)[i];
    &&& -128 <= piece.x + off.0 <= 127
    &&& -128 <= piece.y + off.1 <= 127
    &&& kick_candidate(piece, dir, i).cells_in_range()
}

/// Outcome of trying tests `i..5` in order: the first that fits wins.
pub open spec fn rotation_from(rows: Seq<Seq<Option<Tetromino>>>, piece: ActivePiece, dir: RotateDir, i: int) -> RotateOutcome
    decreases 5 - i,
{
    if i >= 5 || i < 0 {
        RotateOutcome::Blocked
    } else if fits_in(rows, kick_candidate(piece, dir, i)) {
        RotateOutcome::Rotated { piece: kick_candidate(piece, dir, i), kick: (i + 1) as u8 }
    } else {
        rotation_from(rows, piece, dir, i + 1)
    }
}

/// Every test that is tried (up to the first that fits) stays in range.
pub open spec fn rotation_in_range(rows: Seq<Seq<Option<Tetromino>>>, piece: ActivePiece, dir: RotateDir, i: int) -> bool
    decreases 5 - i,
{
    if i >= 5 || i < 0 {
        true
    } else {
        kick_in_range(piece, dir, i) && (fits_in(rows, kick_candidate(piece, dir, i))
            || rotation_in_range(rows, piece, dir, i + 1))
    }
}

/// Outcome of a rotation attempt: O ignores rotation; other kinds try the
/// five kick tests in order.
pub open spec fn rotate_outcome(rows: Seq<Seq<Option<Tetromino>>>, piece: ActivePiece, dir: RotateDir) -> RotateOutcome {
    if piece.kind == Tetromino::O {
        RotateOutcome::IgnoredO
    } else {
        rotation_from(rows, piece, dir, 0)
    }
}

/// Kick test `kick` (1 to 5) is the first that fits: it fits and every
/// earlier test collides.
pub open spec fn first_fit(rows: Seq<Seq<Option<Tetromino>>>, piece: ActivePiece, dir: RotateDir, kick: int) -> bool {
    &&& 1 <= kick <= 5
    &&& fits_in(rows, kick_candidate(piece, dir, kick - 1))
    &&& forall|j: int| 0 <= j < kick - 1 ==> !fits_in(rows, #[trigger] kick_candidate(piece, dir, j))
}

/// SRS rotation is first fit: the rotation succeeds with the first of the
/// five kick tests whose position fits, and is blocked exactly when none
/// fits.
pub proof fn lemma_rotation_first_fit(rows: Seq<Seq<Option<Tetromino>>>, piece: ActivePiece, dir: RotateDir, i: int)
    requires
        0 <= i <= 5,
        forall|j: int| 0 <= j < i ==> !fits_in(rows, #[trigger] kick_candidate(piece, dir, j)),
    ensures
        rotation_from(rows, piece, dir, i) == RotateOutcome::Blocked <==> forall|j: int|
            0 <= j < 5 ==> !fits_in(rows, #[trigger] kick_candidate(piece, dir, j)),
        rotation_from(rows, piece, dir, i) matches RotateOutcome::Rotated { piece: p, kick } ==> first_fit(
            rows,
            piece,
            dir,
            kick as int,
        ) && p == kick_candidate(piece, dir, kick - 1),
    decreases 5 - i,
{
    if i < 5 {
        if fits_in(rows, kick_candidate(piece, dir, i)) {
            assert(((i + 1) as u8) as int == i + 1);
        } else {
            lemma_rotation_first_fit(rows, piece, dir, i + 1);
        }
    }
}

/// Tries to rotate following SRS: the rotation state is replaced and kick
/// tests 1 (0, 0) to 5 are checked in order; the first position that fits
/// is taken. `piece` itself is not changed.
pub fn try_rotate(board: &Board, piece: &ActivePiece, dir: RotateDir) -> (r: RotateOutcome)
    requires
        piece.kind != Tetromino::O ==> rotation_in_range(board@, *piece, dir, 0),
    ensures
        r == rotate_outcome(board@, *piece, dir),
        piece.kind == Tetromino::O ==> r == RotateOutcome::IgnoredO,
        piece.kind != Tetromino::O ==> (r == RotateOutcome::Blocked <==> forall|i: int|
            0 <= i < 5 ==> !fits_in(board@, #[trigger] kick_candidate(*piece, dir, i))),
        r matches RotateOutcome::Rotated { piece: p, kick } ==> first_fit(board@, *piece, dir, kick as int)
            && p == kick_candidate(*piece, dir, kick - 1),
{
    let r = rotate_with_kicks(board, piece, dir);
    proof {
        if piece.kind != Tetromino::O {
            lemma_rotation_first_fit(board@, *piece, dir, 0);
        }
    }
    r
}

/// The rotation itself: O is ignored; otherwise the five kick tests are
/// tried in order.
fn rotate_with_kicks(board: &Board, piece: &ActivePiece, dir: RotateDir) -> (r: RotateOutcome)
    requires
        piece.kind != Tetromino::O ==> rotation_in_range(board@, *piece, dir, 0),
    ensures
        r == rotate_outcome(board@, *piece, dir),
{
    if matches!(piece.kind, Tetromino::O) {
        return RotateOutcome::IgnoredO;
    }
    let rot = dir.apply(piece.rot);
    let offsets = kicks(piece.kind, piece.rot, dir);
    let mut i: usize = 0;
    while i < 5
        invariant
            i <= 5,
            piece.kind != Tetromino::O,
            rot == dir.spec_apply(piece.rot),
            offsets@ == kick_table(piece.kind, piece.rot, dir),
            rotation_from(board@, *piece, dir, i as int) == rotation_from(board@, *piece, dir, 0),
            rotation_in_range(board@, *piece, dir, i as int),
        decreases 5 - i,
    {
        let (dx, dy) = offsets[i];
        let candidate = ActivePiece { rot, x: piece.x + dx, y: piece.y + dy, ..*piece };
        assert(candidate == kick_candidate(*piece, dir, i as int));
        if board.fits(&candidate) {
            return RotateOutcome::Rotated { piece: candidate, kick: (i + 1) as u8 };
        }
        i = i + 1;
    }
    RotateOutcome::Blocked
}

/// Kick offsets move at most two cells in each direction.
pub proof fn lemma_kicks_small(kind: Tetromino, from: Rotation, dir: RotateDir)
    ensures
        kick_table(kind, from, dir).len() == 5,
        forall|i: int|
            0 <= i < 5 ==> -2 <= #[trigger] kick_table(kind, from, dir)[i].0 <= 2 && -2 <= kick_table(
                kind,
                from,
                dir,
            )[i].1 <= 2,
{
}

/// Every kick test of a piece with its box corner in `-3..=9` x `-3..=39`
/// stays in range.
pub proof fn lemma_rotation_in_range(rows: Seq<Seq<Option<Tetromino>>>, piece: ActivePiece, dir: RotateDir, i: int)
    requires
        -3 <= piece.x <= 9,
        -3 <= piece.y <= 39,
        0 <= i <= 5,
    ensures
        rotation_in_range(rows, piece, dir, i),
    decreases 5 - i,
{
    if i < 5 {
        lemma_kicks_small(piece.kind, piece.rot, dir);
        lemma_shape_in_box(piece.kind, dir.spec_apply(piece.rot));
        let c = kick_candidate(piece, dir, i);
        c.lemma_cells_in_range();
        lemma_rotation_in_range(rows, piece, dir, i + 1);
    }
}

/// A rotated piece has the kind of the original and the next rotation state,
/// and it fits the board.
pub proof fn lemma_rotated_fits(rows: Seq<Seq<Option<Tetromino>>>, piece: ActivePiece, dir: RotateDir, i: int)
    requires
        0 <= i <= 5,
        rotation_from(rows, piece, dir, i) matches RotateOutcome::Rotated { .. },
    ensures
        rotation_from(rows, piece, dir, i) matches RotateOutcome::Rotated { piece: p, kick } ==> fits_in(rows, p)
            && p.kind == piece.kind && p.rot == dir.spec_apply(piece.rot) && 1 <= kick <= 5,
    decreases 5 - i,
{
    if i < 5 && !fits_in(rows, kick_candidate(piece, dir, i)) {
        lemma_rotated_fits(rows, piece, dir, i + 1);
    }
}

} // verus!
