//! The piece under player control.
use vstd::prelude::*;

use crate::piece::{Rotation, Tetromino, shape, spawn_position, lemma_shape_in_box};

verus! {

/// The piece under control. `(x, y)` is the field coordinate of the
/// bottom-left corner of its bounding box; it may be negative after a kick.
#[derive(Debug, Clone, Copy, PartialEq, Eq, Structural)]
pub struct ActivePiece {
    pub kind: Tetromino,
    pub rot: Rotation,
    pub x: i8,
    pub y: i8,
}

impl ActivePiece {
    /// Field column of the `i`-th cell.
    pub open spec fn cell_x(self, i: int) -> int {
        self.x + shape(self.kind, self.rot)[i].0
    }

    /// Field row of the `i`-th cell.
    pub open spec fn cell_y(self, i: int) -> int {
        self.y + shape(self.kind, self.rot)[i].1
    }

    /// Whether the piece covers the field cell `(cx, cy)`.
    pub open spec fn covers(self, cx: int, cy: int) -> bool {
        exists|i: int| 0 <= i < 4 && self.cell_x(i) == cx && self.cell_y(i) == cy
    }

    /// All four absolute cell coordinates are representable as `i8`.
    pub open spec fn cells_in_range(self) -> bool {
        forall|i: int| 0 <= i < 4 ==> #[trigger] self.cell_x(i) <= 127 && self.cell_y(i) <= 127
    }

    /// The same piece with its box moved to `(x, y)`.
    pub open spec fn moved_to(self, x: int, y: int) -> ActivePiece {
        ActivePiece { kind: self.kind, rot: self.rot, x: x as i8, y: y as i8 }
    }

    /// A piece of `kind` in the spawn state at the kind's spawn position.
    pub open spec fn spec_spawn(kind: Tetromino) -> ActivePiece {
        ActivePiece {
            kind,
            rot: Rotation::Spawn,
            x: spawn_position(kind).0,
            y: spawn_position(kind).1,
        }
    }

    /// A piece whose box corner is at most 124 in both directions has all
    /// its cell coordinates representable as `i8`.
    pub proof fn lemma_cells_in_range(self)
        requires
            self.x <= 124,
            self.y <= 124,
        ensures
            self.cells_in_range(),
    {
        lemma_shape_in_box(self.kind, self.rot);
        assert forall|i: int| 0 <= i < 4 implies #[trigger] self.cell_x(i) <= 127 && self.cell_y(i) <= 127 by {}
    }

    /// Creates a piece of `kind` in the spawn state at its spawn position.
    pub fn spawn(kind: Tetromino) -> (r: ActivePiece)
        ensures
            r == ActivePiece::spec_spawn(kind),
    {
        let (x, y) = kind.spawn_pos();
        ActivePiece { kind, rot: Rotation::Spawn, x, y }
    }

    /// Absolute field coordinates of the four occupied cells.
    pub fn cells(&self) -> (r: [(i8, i8); 4])
        requires
            self.cells_in_range(),
        ensures
            r@.len() == 4,
            forall|i: int|
                0 <= i < 4 ==> r@[i].0 == self.cell_x(i) && r@[i].1 == self.cell_y(i),
    {
        proof {
            lemma_shape_in_box(self.kind, self.rot);
            assert(self.cells_in_range());
            assert(self.cell_x(0) <= 127 && self.cell_y(0) <= 127);
            assert(self.cell_x(1) <= 127 && self.cell_y(1) <= 127);
            assert(self.cell_x(2) <= 127 && self.cell_y(2) <= 127);
            assert(self.cell_x(3) <= 127 && self.cell_y(3) <= 127);
        }
        let c = self.kind.cells(self.rot);
        let r: [(i8, i8); 4] = [
            (self.x + c[0].0, self.y + c[0].1),
            (self.x + c[1].0, self.y + c[1].1),
            (self.x + c[2].0, self.y + c[2].1),
            (self.x + c[3].0, self.y + c[3].1),
        ];
        assert(r@.len() == 4);
        r
    }
}

} // verus!
