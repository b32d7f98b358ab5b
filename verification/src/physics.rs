//! Movement, gravity and falling.
use vstd::prelude::*;

use crate::active::ActivePiece;
use crate::board::{Board, fits_in, in_field, occupied_in};
use crate::piece::{Tetromino, lemma_shape_in_box};

verus! {

/// Gravity multiplier while soft drop is held.
pub const SOFT_DROP_FACTOR: u32 = 20;

/// One row in Q16 fixed point.
const Q16_ONE: u32 = 65536;

/// Gravity `G` (Q16, 65536 = one row per frame) of levels 1 to 20.
pub open spec fn gravity_table(level: int) -> u32 {
    if level <= 1 {
        1_097
    } else if level == 2 {
        1_384
    } else if level == 3 {
        1_776
    } else if level == 4 {
        2_321
    } else if level == 5 {
        3_089
    } else if level == 6 {
        4_188
    } else if level == 7 {
        5_785
    } else if level == 8 {
        8_143
    } else if level == 9 {
        11_687
    } else if level == 10 {
        17_103
    } else if level == 11 {
        25_530
    } else if level == 12 {
        38_884
    } else if level == 13 {
        60_441
    } else if level == 14 {
        95_915
    } else if level == 15 {
        155_442
    } else if level == 16 {
        257_345
    } else if level == 17 {
        435_384
    } else if level == 18 {
        752_985
    } else if level == 19 {
        1_331_709
    } else {
        2_409_332
    }
}

/// `level` clamped to `1..=20`.
pub open spec fn clamp_level(level: int) -> int {
    if level < 1 {
        1
    } else if level > 20 {
        20
    } else {
        level
    }
}

/// A piece that fits lies with its box corner in `-3..=9` x `-3..=39`.
pub proof fn lemma_fits_bounds(board: Board, piece: ActivePiece)
    requires
        board.piece_fits(piece),
    ensures
        -3 <= piece.x <= 9,
        -3 <= piece.y <= 39,
{
    lemma_shape_in_box(piece.kind, piece.rot);
    assert(!board.occupied(piece.cell_x(0), piece.cell_y(0)));
    assert(in_field(piece.cell_x(0), piece.cell_y(0)));
}

/// Moves the piece one column (`dx` = -1 left, +1 right). `None` when the
/// target collides with a wall, the floor or a block.
pub fn try_shift(board: &Board, piece: &ActivePiece, dx: i8) -> (r: Option<ActivePiece>)
    requires
        -128 <= piece.x + dx <= 127,
        piece.moved_to(piece.x + dx, piece.y as int).cells_in_range(),
    ensures
        r == (if board.piece_fits(piece.moved_to(piece.x + dx, piece.y as int)) {
            Some(piece.moved_to(piece.x + dx, piece.y as int))
        } else {
            None
        }),
{
    let moved = ActivePiece { x: piece.x + dx, ..*piece };
    if board.fits(&moved) {
        Some(moved)
    } else {
        None
    }
}

/// Moves the piece one row down. `None` when it is grounded.
pub fn try_fall(board: &Board, piece: &ActivePiece) -> (r: Option<ActivePiece>)
    requires
        piece.y > -128,
        piece.cells_in_range(),
    ensures
        r == (if board.piece_fits(piece.moved_to(piece.x as int, piece.y - 1)) {
            Some(piece.moved_to(piece.x as int, piece.y - 1))
        } else {
            None
        }),
{
    let fallen = ActivePiece { y: piece.y - 1, ..*piece };
    assert forall|i: int| 0 <= i < 4 implies #[trigger] fallen.cell_x(i) <= 127 && fallen.cell_y(i) <= 127 by {
        assert(piece.cell_x(i) <= 127 && piece.cell_y(i) <= 127);
    }
    if board.fits(&fallen) {
        Some(fallen)
    } else {
        None
    }
}

/// Whether the piece is grounded (cannot move one row down).
pub fn is_grounded(board: &Board, piece: &ActivePiece) -> (r: bool)
    requires
        piece.y > -128,
        piece.cells_in_range(),
    ensures
        r == !board.piece_fits(piece.moved_to(piece.x as int, piece.y - 1)),
{
    try_fall(board, piece).is_none()
}

/// Row of the box corner where `piece`, moved to row `y`, comes to rest
/// when dropped straight down.
pub open spec fn drop_row(rows: Seq<Seq<Option<Tetromino>>>, piece: ActivePiece, y: int) -> int
    decreases y + 4,
{
    if y - 1 >= -3 && fits_in(rows, piece.moved_to(piece.x as int, y - 1)) {
        drop_row(rows, piece, y - 1)
    } else {
        y
    }
}

/// The landing position of `piece`: its box corner at row `ghost_y`, with
/// every row between free and the row below blocked.
pub open spec fn is_landing_row(rows: Seq<Seq<Option<Tetromino>>>, piece: ActivePiece, ghost_y: int) -> bool {
    &&& ghost_y <= piece.y
    &&& forall|y: int| ghost_y <= y < piece.y ==> #[trigger] fits_in(rows, piece.moved_to(piece.x as int, y))
    &&& !fits_in(rows, piece.moved_to(piece.x as int, ghost_y - 1))
}

/// A piece that fits lies with its box corner in `-3..=9` x `-3..=39`.
pub proof fn lemma_fits_in_bounds(rows: Seq<Seq<Option<Tetromino>>>, piece: ActivePiece)
    requires
        fits_in(rows, piece),
    ensures
        -3 <= piece.x <= 9,
        -3 <= piece.y <= 39,
        piece.cells_in_range(),
{
    lemma_shape_in_box(piece.kind, piece.rot);
    assert(!occupied_in(rows, piece.cell_x(0), piece.cell_y(0)));
    piece.lemma_cells_in_range();
}

/// Dropping stops at a row where the piece rests: all rows passed are free
/// and the one below is blocked.
pub proof fn lemma_drop_row_lands(rows: Seq<Seq<Option<Tetromino>>>, piece: ActivePiece, y: int)
    requires
        -128 < y <= 127,
        y <= piece.y,
        forall|z: int| y <= z < piece.y ==> #[trigger] fits_in(rows, piece.moved_to(piece.x as int, z)),
    ensures
        is_landing_row(rows, piece, drop_row(rows, piece, y)),
        drop_row(rows, piece, y) <= y,
    decreases y + 4,
{
    if y - 1 >= -3 && fits_in(rows, piece.moved_to(piece.x as int, y - 1)) {
        lemma_drop_row_lands(rows, piece, y - 1);
    } else if y - 1 < -3 {
        let low = piece.moved_to(piece.x as int, y - 1);
        if fits_in(rows, low) {
            lemma_fits_in_bounds(rows, low);
        }
    }
}

/// Dropping never moves up, and stops at row -3 at the lowest.
pub proof fn lemma_drop_row_range(rows: Seq<Seq<Option<Tetromino>>>, piece: ActivePiece, y: int)
    ensures
        drop_row(rows, piece, y) <= y,
        drop_row(rows, piece, y) == y || drop_row(rows, piece, y) >= -3,
    decreases y + 4,
{
    if y - 1 >= -3 && fits_in(rows, piece.moved_to(piece.x as int, y - 1)) {
        lemma_drop_row_range(rows, piece, y - 1);
    }
}

/// Ghost piece: the position reached by dropping straight down from the
/// current position (also the hard-drop landing spot). A grounded piece is
/// its own ghost.
pub fn ghost(board: &Board, piece: &ActivePiece) -> (r: ActivePiece)
    requires
        piece.y > -128,
        piece.cells_in_range(),
    ensures
        r == piece.moved_to(piece.x as int, drop_row(board@, *piece, piece.y as int)),
        r.y > -128,
        r.cells_in_range(),
{
    let mut current = *piece;
    loop
        invariant
            current == piece.moved_to(piece.x as int, current.y as int),
            current.y <= piece.y,
            current.y > -128,
            current.cells_in_range(),
            drop_row(board@, *piece, current.y as int) == drop_row(board@, *piece, piece.y as int),
        decreases current.y + 128,
    {
        match try_fall(board, &current) {
            Some(fallen) => {
                proof {
                    lemma_fits_bounds(*board, fallen);
                    lemma_shape_in_box(fallen.kind, fallen.rot);
                    assert(fallen == piece.moved_to(piece.x as int, current.y - 1));
                    assert(fallen == piece.moved_to(piece.x as int, fallen.y as int));
                }
                current = fallen;
            },
            None => {
                assert(current.moved_to(current.x as int, current.y - 1) == piece.moved_to(
                    piece.x as int,
                    current.y - 1,
                ));
                return current;
            },
        }
    }
}

/// Gravity `G` of a level (Q16 fixed point, one row = 65536). Levels above
/// 20 use the level-20 value; level 0 is treated as level 1.
pub fn gravity_q16(level: u32) -> (r: u32)
    ensures
        r == gravity_table(clamp_level(level as int)),
{
    let clamped = if level < 1 {
        1
    } else if level > 20 {
        20
    } else {
        level
    };
    match clamped {
        1 => 1_097,
        2 => 1_384,
        3 => 1_776,
        4 => 2_321,
        5 => 3_089,
        6 => 4_188,
        7 => 5_785,
        8 => 8_143,
        9 => 11_687,
        10 => 17_103,
        11 => 25_530,
        12 => 38_884,
        13 => 60_441,
        14 => 95_915,
        15 => 155_442,
        16 => 257_345,
        17 => 435_384,
        18 => 752_985,
        19 => 1_331_709,
        _ => 2_409_332,
    }
}

/// Q16 gravity accumulator: every 65536 accumulated is one row; the
/// remainder carries over to the next frame.
#[derive(Debug, Clone, Copy, PartialEq, Eq, Structural)]
pub struct GravityAccumulator {
    acc: u32,
}

impl GravityAccumulator {
    #[verifier::type_invariant]
    spec fn inv(self) -> bool {
        self.acc < 65536
    }

    /// The carried remainder (always below 65536).
    pub closed spec fn spec_acc(self) -> u32 {
        self.acc
    }

    /// The accumulator at zero.
    pub closed spec fn spec_new() -> GravityAccumulator {
        GravityAccumulator { acc: 0 }
    }

    /// The accumulator after adding `gravity`.
    pub closed spec fn after_tick(self, gravity: u32) -> GravityAccumulator {
        GravityAccumulator { acc: ((self.acc + gravity) % 65536) as u32 }
    }

    /// Rows to fall after adding `gravity`.
    pub open spec fn tick_rows(self, gravity: u32) -> int {
        (self.spec_acc() + gravity) / 65536
    }

    /// Creates an accumulator at zero.
    pub fn new() -> (r: GravityAccumulator)
        ensures
            r == GravityAccumulator::spec_new(),
            r.spec_acc() == 0,
    {
        GravityAccumulator { acc: 0 }
    }

    /// Adds this frame's gravity and returns the number of rows to fall;
    /// the remainder below 65536 carries over.
    pub fn tick(&mut self, gravity: u32) -> (r: u32)
        requires
            old(self).spec_acc() + gravity <= u32::MAX,
        ensures
            r == old(self).tick_rows(gravity),
            *final(self) == old(self).after_tick(gravity),
            final(self).spec_acc() == (old(self).spec_acc() + gravity) % 65536,
    {
        proof {
            use_type_invariant(&*self);
        }
        let total = self.acc + gravity;
        let rows = total / Q16_ONE;
        self.acc = total % Q16_ONE;
        rows
    }

    /// Clears the accumulator (on touchdown).
    pub fn reset(&mut self)
        ensures
            *final(self) == GravityAccumulator::spec_new(),
            final(self).spec_acc() == 0,
    {
        self.acc = 0;
    }

    /// The remainder accumulated so far.
    pub fn acc(&self) -> (r: u32)
        ensures
            r == self.spec_acc(),
            r < 65536,
    {
        proof {
            use_type_invariant(self);
        }
        self.acc
    }
}

/// No gravity is lost: the rows handed out times 65536 plus the new
/// remainder equal the old remainder plus this frame's gravity.
pub proof fn lemma_tick_conserves_gravity(a: GravityAccumulator, gravity: u32)
    ensures
        a.tick_rows(gravity) * 65536 + a.after_tick(gravity).spec_acc() == a.spec_acc() + gravity,
        a.after_tick(gravity).spec_acc() < 65536,
{
    let total = a.spec_acc() + gravity;
    vstd::arithmetic::div_mod::lemma_fundamental_div_mod(total, 65536);
    assert(a.after_tick(gravity).spec_acc() == total % 65536);
}

impl Default for GravityAccumulator {
    fn default() -> (r: GravityAccumulator)
        ensures
            r == GravityAccumulator::spec_new(),
    {
        GravityAccumulator::new()
    }
}

} // verus!
