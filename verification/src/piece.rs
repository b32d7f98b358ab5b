//! Tetromino kinds, rotation states and the shape table.
use vstd::prelude::*;

verus! {

/// The seven tetromino kinds.
#[derive(Debug, Clone, Copy, PartialEq, Eq, Structural)]
pub enum Tetromino {
    I,
    O,
    T,
    S,
    Z,
    J,
    L,
}

/// Rotation state: `Spawn` = 0, `Cw` = R, `Flip` = 2, `Ccw` = L.
#[derive(Debug, Clone, Copy, PartialEq, Eq, Structural)]
pub enum Rotation {
    /// State 0 (spawn orientation).
    Spawn,
    /// State R (90 degrees clockwise).
    Cw,
    /// State 2 (180 degrees).
    Flip,
    /// State L (90 degrees counter-clockwise).
    Ccw,
}

impl Rotation {
    /// The state reached by one clockwise quarter turn.
    pub open spec fn spec_cw(self) -> Rotation {
        match self {
            Rotation::Spawn => Rotation::Cw,
            Rotation::Cw => Rotation::Flip,
            Rotation::Flip => Rotation::Ccw,
            Rotation::Ccw => Rotation::Spawn,
        }
    }

    /// The state reached by one counter-clockwise quarter turn.
    pub open spec fn spec_ccw(self) -> Rotation {
        match self {
            Rotation::Spawn => Rotation::Ccw,
            Rotation::Ccw => Rotation::Flip,
            Rotation::Flip => Rotation::Cw,
            Rotation::Cw => Rotation::Spawn,
        }
    }

    /// Clockwise quarter turn.
    #[verifier::when_used_as_spec(spec_cw)]
    pub fn cw(self) -> (r: Rotation)
        ensures
            r == self.spec_cw(),
    {
        match self {
            Rotation::Spawn => Rotation::Cw,
            Rotation::Cw => Rotation::Flip,
            Rotation::Flip => Rotation::Ccw,
            Rotation::Ccw => Rotation::Spawn,
        }
    }

    /// Counter-clockwise quarter turn.
    #[verifier::when_used_as_spec(spec_ccw)]
    pub fn ccw(self) -> (r: Rotation)
        ensures
            r == self.spec_ccw(),
    {
        match self {
            Rotation::Spawn => Rotation::Ccw,
            Rotation::Ccw => Rotation::Flip,
            Rotation::Flip => Rotation::Cw,
            Rotation::Cw => Rotation::Spawn,
        }
    }
}

/// A clockwise turn followed by a counter-clockwise turn (or the reverse)
/// returns to the starting state.
pub proof fn lemma_cw_ccw_inverse(r: Rotation)
    ensures
        r.cw().ccw() == r,
        r.ccw().cw() == r,
{
}

/// Four clockwise turns return to the starting state.
pub proof fn lemma_cw_four_times_identity(r: Rotation)
    ensures
        r.cw().cw().cw().cw() == r,
{
}

/// The four cells `(cx, cy)` a tetromino occupies inside its bounding box
/// (origin bottom-left, y pointing up) in rotation state `rot`.
pub open spec fn shape(kind: Tetromino, rot: Rotation) -> Seq<(i8, i8)> {
    match (kind, rot) {
        (Tetromino::I, Rotation::Spawn) => seq![(0, 2), (1, 2), (2, 2), (3, 2)],
        (Tetromino::I, Rotation::Cw) => seq![(2, 0), (2, 1), (2, 2), (2, 3)],
        (Tetromino::I, Rotation::Flip) => seq![(0, 1), (1, 1), (2, 1), (3, 1)],
        (Tetromino::I, Rotation::Ccw) => seq![(1, 0), (1, 1), (1, 2), (1, 3)],
        (Tetromino::O, Rotation::Spawn) => seq![(0, 0), (1, 0), (0, 1), (1, 1)],
        (Tetromino::O, Rotation::Cw) => seq![(0, 0), (1, 0), (0, 1), (1, 1)],
        (Tetromino::O, Rotation::Flip) => seq![(0, 0), (1, 0), (0, 1), (1, 1)],
        (Tetromino::O, Rotation::Ccw) => seq![(0, 0), (1, 0), (0, 1), (1, 1)],
        (Tetromino::T, Rotation::Spawn) => seq![(0, 1), (1, 1), (2, 1), (1, 2)],
        (Tetromino::T, Rotation::Cw) => seq![(1, 0), (1, 1), (2, 1), (1, 2)],
        (Tetromino::T, Rotation::Flip) => seq![(0, 1), (1, 1), (2, 1), (1, 0)],
        (Tetromino::T, Rotation::Ccw) => seq![(1, 0), (0, 1), (1, 1), (1, 2)],
        (Tetromino::S, Rotation::Spawn) => seq![(0, 1), (1, 1), (1, 2), (2, 2)],
        (Tetromino::S, Rotation::Cw) => seq![(1, 2), (1, 1), (2, 1), (2, 0)],
        (Tetromino::S, Rotation::Flip) => seq![(0, 0), (1, 0), (1, 1), (2, 1)],
        (Tetromino::S, Rotation::Ccw) => seq![(0, 2), (0, 1), (1, 1), (1, 0)],
        (Tetromino::Z, Rotation::Spawn) => seq![(1, 1), (2, 1), (0, 2), (1, 2)],
        (Tetromino::Z, Rotation::Cw) => seq![(2, 2), (1, 1), (2, 1), (1, 0)],
        (Tetromino::Z, Rotation::Flip) => seq![(0, 1), (1, 1), (1, 0), (2, 0)],
        (Tetromino::Z, Rotation::Ccw) => seq![(1, 2), (0, 1), (1, 1), (0, 0)],
        (Tetromino::J, Rotation::Spawn) => seq![(0, 1), (1, 1), (2, 1), (0, 2)],
        (Tetromino::J, Rotation::Cw) => seq![(1, 2), (2, 2), (1, 1), (1, 0)],
        (Tetromino::J, Rotation::Flip) => seq![(0, 1), (1, 1), (2, 1), (2, 0)],
        (Tetromino::J, Rotation::Ccw) => seq![(1, 2), (1, 1), (0, 0), (1, 0)],
        (Tetromino::L, Rotation::Spawn) => seq![(0, 1), (1, 1), (2, 1), (2, 2)],
        (Tetromino::L, Rotation::Cw) => seq![(1, 2), (1, 1), (1, 0), (2, 0)],
        (Tetromino::L, Rotation::Flip) => seq![(0, 1), (1, 1), (2, 1), (0, 0)],
        (Tetromino::L, Rotation::Ccw) => seq![(0, 2), (1, 2), (1, 1), (1, 0)],
    }
}

/// Spawn position `(bx, by)` of a kind's bounding box.
pub open spec fn spawn_position(kind: Tetromino) -> (i8, i8) {
    match kind {
        Tetromino::I => (3, 18),
        Tetromino::O => (4, 20),
        _ => (3, 19),
    }
}

/// Every shape has four cells, all inside the 4x4 box.
pub proof fn lemma_shape_in_box(kind: Tetromino, rot: Rotation)
    ensures
        shape(kind, rot).len() == 4,
        forall|i: int|
            0 <= i < 4 ==> 0 <= #[trigger] shape(kind, rot)[i].0 <= 3 && 0 <= shape(kind, rot)[i].1
                <= 3,
{
}

/// The O piece has the same cells in every rotation state.
pub proof fn lemma_o_rotation_invariant(rot: Rotation)
    ensures
        shape(Tetromino::O, rot) == shape(Tetromino::O, Rotation::Spawn),
{
}

impl Tetromino {
    /// Cells of this kind in rotation state `rot`, inside the bounding box.
    pub fn cells(self, rot: Rotation) -> (r: [(i8, i8); 4])
        ensures
            r@ == shape(self, rot),
    {
        let r: [(i8, i8); 4] = match (self, rot) {
            (Tetromino::I, Rotation::Spawn) => [(0, 2), (1, 2), (2, 2), (3, 2)],
            (Tetromino::I, Rotation::Cw) => [(2, 0), (2, 1), (2, 2), (2, 3)],
            (Tetromino::I, Rotation::Flip) => [(0, 1), (1, 1), (2, 1), (3, 1)],
            (Tetromino::I, Rotation::Ccw) => [(1, 0), (1, 1), (1, 2), (1, 3)],
            (Tetromino::O, Rotation::Spawn) => [(0, 0), (1, 0), (0, 1), (1, 1)],
            (Tetromino::O, Rotation::Cw) => [(0, 0), (1, 0), (0, 1), (1, 1)],
            (Tetromino::O, Rotation::Flip) => [(0, 0), (1, 0), (0, 1), (1, 1)],
            (Tetromino::O, Rotation::Ccw) => [(0, 0), (1, 0), (0, 1), (1, 1)],
            (Tetromino::T, Rotation::Spawn) => [(0, 1), (1, 1), (2, 1), (1, 2)],
            (Tetromino::T, Rotation::Cw) => [(1, 0), (1, 1), (2, 1), (1, 2)],
            (Tetromino::T, Rotation::Flip) => [(0, 1), (1, 1), (2, 1), (1, 0)],
            (Tetromino::T, Rotation::Ccw) => [(1, 0), (0, 1), (1, 1), (1, 2)],
            (Tetromino::S, Rotation::Spawn) => [(0, 1), (1, 1), (1, 2), (2, 2)],
            (Tetromino::S, Rotation::Cw) => [(1, 2), (1, 1), (2, 1), (2, 0)],
            (Tetromino::S, Rotation::Flip) => [(0, 0), (1, 0), (1, 1), (2, 1)],
            (Tetromino::S, Rotation::Ccw) => [(0, 2), (0, 1), (1, 1), (1, 0)],
            (Tetromino::Z, Rotation::Spawn) => [(1, 1), (2, 1), (0, 2), (1, 2)],
            (Tetromino::Z, Rotation::Cw) => [(2, 2), (1, 1), (2, 1), (1, 0)],
            (Tetromino::Z, Rotation::Flip) => [(0, 1), (1, 1), (1, 0), (2, 0)],
            (Tetromino::Z, Rotation::Ccw) => [(1, 2), (0, 1), (1, 1), (0, 0)],
            (Tetromino::J, Rotation::Spawn) => [(0, 1), (1, 1), (2, 1), (0, 2)],
            (Tetromino::J, Rotation::Cw) => [(1, 2), (2, 2), (1, 1), (1, 0)],
            (Tetromino::J, Rotation::Flip) => [(0, 1), (1, 1), (2, 1), (2, 0)],
            (Tetromino::J, Rotation::Ccw) => [(1, 2), (1, 1), (0, 0), (1, 0)],
            (Tetromino::L, Rotation::Spawn) => [(0, 1), (1, 1), (2, 1), (2, 2)],
            (Tetromino::L, Rotation::Cw) => [(1, 2), (1, 1), (1, 0), (2, 0)],
            (Tetromino::L, Rotation::Flip) => [(0, 1), (1, 1), (2, 1), (0, 0)],
            (Tetromino::L, Rotation::Ccw) => [(0, 2), (1, 2), (1, 1), (1, 0)],
        };
        assert(r@ =~= shape(self, rot));
        r
    }

    /// Spawn position `(bx, by)` of the bounding box's bottom-left corner.
    pub fn spawn_pos(self) -> (r: (i8, i8))
        ensures
            r == spawn_position(self),
    {
        match self {
            Tetromino::I => (3, 18),
            Tetromino::O => (4, 20),
            Tetromino::T | Tetromino::S | Tetromino::Z | Tetromino::J | Tetromino::L => (3, 19),
        }
    }
}

} // verus!
