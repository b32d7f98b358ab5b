//! T-Spin detection by the three-corner rule.
use vstd::prelude::*;

use crate::active::ActivePiece;
use crate::board::{Board, occupied_in};
use crate::piece::{Rotation, Tetromino};

verus! {

/// Result of T-Spin detection.
#[derive(Debug, Clone, Copy, PartialEq, Eq, Structural)]
pub enum TSpin {
    /// Not a T-Spin.
    NoSpin,
    /// T-Spin Mini.
    Mini,
    /// Full T-Spin.
    Full,
}

/// Number of `true` values among two flags.
pub open spec fn count2(a: bool, b: bool) -> int {
    (if a { 1int } else { 0 }) + (if b { 1int } else { 0 })
}

/// The corners of the 3x3 box `(A, B, C, D)` = (top-left, top-right,
/// bottom-left, bottom-right); outside the field counts as occupied.
pub open spec fn corners(rows: Seq<Seq<Option<Tetromino>>>, piece: ActivePiece) -> (bool, bool, bool, bool) {
    (
        occupied_in(rows, piece.x as int, piece.y + 2),
        occupied_in(rows, piece.x + 2, piece.y + 2),
        occupied_in(rows, piece.x as int, piece.y as int),
        occupied_in(rows, piece.x + 2, piece.y as int),
    )
}

/// Occupied corners on the side the T points to.
pub open spec fn front_count(rows: Seq<Seq<Option<Tetromino>>>, piece: ActivePiece) -> int {
    let (a, b, c, d) = corners(rows, piece);
    match piece.rot {
        Rotation::Spawn => count2(a, b),
        Rotation::Cw => count2(b, d),
        Rotation::Flip => count2(c, d),
        Rotation::Ccw => count2(a, c),
    }
}

/// Occupied corners on the flat side of the T.
pub open spec fn back_count(rows: Seq<Seq<Option<Tetromino>>>, piece: ActivePiece) -> int {
    let (a, b, c, d) = corners(rows, piece);
    match piece.rot {
        Rotation::Spawn => count2(c, d),
        Rotation::Cw => count2(a, c),
        Rotation::Flip => count2(a, b),
        Rotation::Ccw => count2(b, d),
    }
}

/// The three-corner rule: only a T whose last successful action was a
/// rotation can spin. Two front and at least one back corner make a full
/// T-Spin; one front and two back corners make a Mini, upgraded to full when
/// the rotation used kick test 5.
pub open spec fn tspin_of(rows: Seq<Seq<Option<Tetromino>>>, piece: ActivePiece, last_action_was_rotation: bool, last_kick: u8) -> TSpin {
    if piece.kind != Tetromino::T || !last_action_was_rotation {
        TSpin::NoSpin
    } else if front_count(rows, piece) == 2 && back_count(rows, piece) >= 1 {
        TSpin::Full
    } else if front_count(rows, piece) == 1 && back_count(rows, piece) == 2 {
        if last_kick == 5 {
            TSpin::Full
        } else {
            TSpin::Mini
        }
    } else {
        TSpin::NoSpin
    }
}

/// T-Spin detection at lock time.
///
/// `last_action_was_rotation`: the last successful action was a rotation
/// (any shift or fall afterwards clears it). `last_kick`: the kick test
/// (1 to 5) of that rotation; 5 upgrades a Mini to a full T-Spin.
pub fn detect_tspin(board: &Board, piece: &ActivePiece, last_action_was_rotation: bool, last_kick: u8) -> (r: TSpin)
    requires
        piece.kind == Tetromino::T && last_action_was_rotation ==> piece.x + 2 <= 127 && piece.y + 2 <= 127,
    ensures
        r == tspin_of(board@, *piece, last_action_was_rotation, last_kick),
{
    let is_t = match piece.kind {
        Tetromino::T => true,
        _ => false,
    };
    if !is_t || !last_action_was_rotation {
        return TSpin::NoSpin;
    }
    let a = board.is_occupied(piece.x, piece.y + 2);
    let b = board.is_occupied(piece.x + 2, piece.y + 2);
    let c = board.is_occupied(piece.x, piece.y);
    let d = board.is_occupied(piece.x + 2, piece.y);
    let (f1, f2, b1, b2) = match piece.rot {
        Rotation::Spawn => (a, b, c, d),
        Rotation::Cw => (b, d, a, c),
        Rotation::Flip => (c, d, a, b),
        Rotation::Ccw => (a, c, b, d),
    };
    let front: u8 = if f1 { 1 } else { 0 } + if f2 { 1 } else { 0 };
    let back: u8 = if b1 { 1 } else { 0 } + if b2 { 1 } else { 0 };
    assert(front == front_count(board@, *piece));
    assert(back == back_count(board@, *piece));
    if front == 2 && back >= 1 {
        TSpin::Full
    } else if front == 1 && back == 2 {
        if last_kick == 5 {
            TSpin::Full
        } else {
            TSpin::Mini
        }
    } else {
        TSpin::NoSpin
    }
}

/// A piece other than T, or a T whose last action was not a rotation, never
/// spins.
pub proof fn lemma_tspin_needs_rotated_t(rows: Seq<Seq<Option<Tetromino>>>, piece: ActivePiece, rotated: bool, kick: u8)
    ensures
        (piece.kind != Tetromino::T || !rotated) ==> tspin_of(rows, piece, rotated, kick) == TSpin::NoSpin,
        tspin_of(rows, piece, rotated, kick) != TSpin::NoSpin ==> front_count(rows, piece) + back_count(rows, piece) >= 3,
{
}

/// The three-corner rule by direction, for a T whose last action was a
/// rotation, with box corner `(x, y)`. The front corners are the two on the
/// side the T points to: up (spawn) `(x, y+2)`, `(x+2, y+2)`; right
/// `(x+2, y+2)`, `(x+2, y)`; down `(x, y)`, `(x+2, y)`; left `(x, y+2)`,
/// `(x, y)`. Both front corners with either back corner give a full
/// T-Spin; exactly one front corner with both back corners gives a Mini
/// (full after kick test 5); anything else is no T-Spin.
pub proof fn lemma_three_corner_rule(rows: Seq<Seq<Option<Tetromino>>>, piece: ActivePiece, kick: u8)
    requires
        piece.kind == Tetromino::T,
    ensures
        ({
            let x = piece.x as int;
            let y = piece.y as int;
            let up_l = occupied_in(rows, x, y + 2);
            let up_r = occupied_in(rows, x + 2, y + 2);
            let low_l = occupied_in(rows, x, y);
            let low_r = occupied_in(rows, x + 2, y);
            let r = tspin_of(rows, piece, true, kick);
            &&& piece.rot == Rotation::Spawn ==> {
                &&& (up_l && up_r && (low_l || low_r)) ==> r == TSpin::Full
                &&& (up_l != up_r && low_l && low_r) ==> r == (if kick == 5 { TSpin::Full } else { TSpin::Mini })
                &&& !((up_l && up_r && (low_l || low_r)) || (up_l != up_r && low_l && low_r)) ==> r == TSpin::NoSpin
            }
            &&& piece.rot == Rotation::Cw ==> {
                &&& (up_r && low_r && (up_l || low_l)) ==> r == TSpin::Full
                &&& (up_r != low_r && up_l && low_l) ==> r == (if kick == 5 { TSpin::Full } else { TSpin::Mini })
                &&& !((up_r && low_r && (up_l || low_l)) || (up_r != low_r && up_l && low_l)) ==> r == TSpin::NoSpin
            }
            &&& piece.rot == Rotation::Flip ==> {
                &&& (low_l && low_r && (up_l || up_r)) ==> r == TSpin::Full
                &&& (low_l != low_r && up_l && up_r) ==> r == (if kick == 5 { TSpin::Full } else { TSpin::Mini })
                &&& !((low_l && low_r && (up_l || up_r)) || (low_l != low_r && up_l && up_r)) ==> r == TSpin::NoSpin
            }
            &&& piece.rot == Rotation::Ccw ==> {
                &&& (up_l && low_l && (up_r || low_r)) ==> r == TSpin::Full
                &&& (up_l != low_l && up_r && low_r) ==> r == (if kick == 5 { TSpin::Full } else { TSpin::Mini })
                &&& !((up_l && low_l && (up_r || low_r)) || (up_l != low_l && up_r && low_r)) ==> r == TSpin::NoSpin
            }
        }),
{
}

/// Left-right mirror symmetry: two fields whose box corners are mirror
/// images (left and right corners swapped) give the same result for a T
/// pointing up or down at the same box, and swap a T pointing right for one
/// pointing left.
pub proof fn lemma_tspin_mirror(
    rows: Seq<Seq<Option<Tetromino>>>,
    mirrored: Seq<Seq<Option<Tetromino>>>,
    piece: ActivePiece,
    kick: u8,
)
    requires
        piece.kind == Tetromino::T,
        occupied_in(mirrored, piece.x as int, piece.y + 2) == occupied_in(rows, piece.x + 2, piece.y + 2),
        occupied_in(mirrored, piece.x + 2, piece.y + 2) == occupied_in(rows, piece.x as int, piece.y + 2),
        occupied_in(mirrored, piece.x as int, piece.y as int) == occupied_in(rows, piece.x + 2, piece.y as int),
        occupied_in(mirrored, piece.x + 2, piece.y as int) == occupied_in(rows, piece.x as int, piece.y as int),
    ensures
        (piece.rot == Rotation::Spawn || piece.rot == Rotation::Flip) ==> tspin_of(mirrored, piece, true, kick)
            == tspin_of(rows, piece, true, kick),
        piece.rot == Rotation::Cw ==> tspin_of(mirrored, ActivePiece { rot: Rotation::Ccw, ..piece }, true, kick)
            == tspin_of(rows, piece, true, kick),
{
    lemma_three_corner_rule(rows, piece, kick);
    lemma_three_corner_rule(mirrored, piece, kick);
    lemma_three_corner_rule(mirrored, ActivePiece { rot: Rotation::Ccw, ..piece }, kick);
}

/// Up-down symmetry: two fields whose box corners are mirror images top to
/// bottom give the same result for a T pointing up in one and down in the
/// other, and for a T pointing right (or left) in both.
pub proof fn lemma_tspin_flip_vertical(
    rows: Seq<Seq<Option<Tetromino>>>,
    flipped: Seq<Seq<Option<Tetromino>>>,
    piece: ActivePiece,
    kick: u8,
)
    requires
        piece.kind == Tetromino::T,
        occupied_in(flipped, piece.x as int, piece.y + 2) == occupied_in(rows, piece.x as int, piece.y as int),
        occupied_in(flipped, piece.x + 2, piece.y + 2) == occupied_in(rows, piece.x + 2, piece.y as int),
        occupied_in(flipped, piece.x as int, piece.y as int) == occupied_in(rows, piece.x as int, piece.y + 2),
        occupied_in(flipped, piece.x + 2, piece.y as int) == occupied_in(rows, piece.x + 2, piece.y + 2),
    ensures
        piece.rot == Rotation::Spawn ==> tspin_of(flipped, ActivePiece { rot: Rotation::Flip, ..piece }, true, kick)
            == tspin_of(rows, piece, true, kick),
        (piece.rot == Rotation::Cw || piece.rot == Rotation::Ccw) ==> tspin_of(flipped, piece, true, kick)
            == tspin_of(rows, piece, true, kick),
{
    lemma_three_corner_rule(rows, piece, kick);
    lemma_three_corner_rule(flipped, piece, kick);
    lemma_three_corner_rule(flipped, ActivePiece { rot: Rotation::Flip, ..piece }, kick);
}

} // verus!
