//! Game state machine: one frame update ties everything together.
use vstd::prelude::*;

use crate::active::ActivePiece;
use crate::bag::{PieceQueue, lemma_refill_keeps_order, refilled, shuffled_bag};
use crate::rng::seed_state;
use crate::board::{Board, cleared_rows, empty_rows, in_field, occupied_in, lemma_full_row_count_bounds, fits_in, full_row_count, no_blocks, well_shaped, with_cell, with_piece};
use crate::input::Buttons;
use crate::lock_delay::{LOCK_DELAY_FRAMES, LOCK_RESET_MAX, LockDelay, lemma_full_timer, lemma_move_reset};
use crate::physics::{
    GravityAccumulator, SOFT_DROP_FACTOR, clamp_level, drop_row, ghost, gravity_q16, gravity_table,
    is_grounded, lemma_drop_row_lands, lemma_drop_row_range, lemma_fits_in_bounds, lemma_tick_conserves_gravity, try_fall,
    try_shift,
};
use crate::piece::{Rotation, Tetromino, lemma_shape_in_box};
use crate::score::{Scoring, base_points_of, is_hard_clear, perfect_clear_bonus_of};
use crate::srs::{RotateDir, RotateOutcome, lemma_rotated_fits, lemma_rotation_in_range, rotate_outcome, try_rotate};
use crate::tspin::{TSpin, detect_tspin, tspin_of};

verus! {

/// DAS: frames from the press to the first auto-repeat.
pub const DAS_FRAMES: u8 = 10;

/// ARR: frames between auto-repeats.
pub const ARR_FRAMES: u8 = 2;

/// Game phase. The title screen is not part of the game.
#[derive(Debug, Clone, Copy, PartialEq, Eq, Structural)]
pub enum Phase {
    /// Playing.
    Playing,
    /// Paused: nothing advances.
    Paused,
    /// Topped out. A new game starts with [`Game::new`].
    GameOver,
}

/// Auto-shift state; kept across lock and spawn.
#[derive(Debug, Clone, Copy, PartialEq, Eq, Structural)]
struct Das {
    /// Active direction (-1 left, 0 none, +1 right).
    dir: i8,
    /// Frames until the next automatic move.
    timer: u8,
}

/// Details of a lock in this frame (for HUD and sound). Not produced when
/// the lock itself tops out (lock out).
#[derive(Debug, Clone, Copy, PartialEq, Eq, Structural)]
pub struct LockEvent {
    /// Lines cleared (0 = none).
    pub lines_cleared: u8,
    /// T-Spin result.
    pub tspin: TSpin,
    /// Whether the back-to-back x1.5 bonus applied.
    pub b2b_applied: bool,
    /// Combo counter after this lock (-1 without a clear).
    pub combo: i16,
    /// Whether the field is empty after the clear.
    pub perfect_clear: bool,
    /// Points of this lock, drop points excluded.
    pub points_awarded: u32,
    /// Whether the level went up.
    pub level_up: bool,
}

/// What happened during the latest [`Game::update`]; cleared at the start of
/// every update.
#[derive(Debug, Clone, Copy, PartialEq, Eq, Structural)]
pub struct FrameEvents {
    /// The lock of this frame, if any.
    pub locked: Option<LockEvent>,
    /// A hold was performed.
    pub hold_performed: bool,
    /// A hard drop was performed (including a zero-cell drop).
    pub hard_dropped: bool,
    /// A rotation succeeded.
    pub rotated: bool,
    /// A sideways move succeeded.
    pub shifted: bool,
    /// Rows fallen by soft drop this frame.
    pub soft_drop_rows: u8,
    /// The game went over this frame.
    pub topped_out: bool,
}

impl FrameEvents {
    /// Nothing happened.
    pub open spec fn none() -> FrameEvents {
        FrameEvents {
            locked: None,
            hold_performed: false,
            hard_dropped: false,
            rotated: false,
            shifted: false,
            soft_drop_rows: 0,
            topped_out: false,
        }
    }
}

impl Default for FrameEvents {
    /// Nothing happened.
    fn default() -> (r: FrameEvents)
        ensures
            r == FrameEvents::none(),
    {
        FrameEvents {
            locked: None,
            hold_performed: false,
            hard_dropped: false,
            rotated: false,
            shifted: false,
            soft_drop_rows: 0,
            topped_out: false,
        }
    }
}

/// The abstract state of a game.
pub struct GameState {
    /// Locked blocks, 40 rows of 10 cells.
    pub board: Seq<Seq<Option<Tetromino>>>,
    /// Queued pieces, next first.
    pub queue: Seq<Tetromino>,
    /// Random state that deals the next bag.
    pub rng: u32,
    /// Piece under control.
    pub active: ActivePiece,
    /// Held piece.
    pub hold: Option<Tetromino>,
    /// A hold was used since the last lock.
    pub hold_used: bool,
    /// Lock delay of the active piece.
    pub lock_delay: LockDelay,
    /// Gravity accumulator.
    pub gravity: GravityAccumulator,
    /// Score, lines and level.
    pub scoring: Scoring,
    /// Auto-shift direction.
    pub das_dir: i8,
    /// Frames until the next automatic move.
    pub das_timer: u8,
    /// Buttons of the previous frame.
    pub prev_buttons: Buttons,
    /// The next update is the first one.
    pub first_update: bool,
    /// The last successful action was a rotation.
    pub last_rotation: bool,
    /// Kick test of the last rotation.
    pub last_kick: u8,
    /// Game phase.
    pub phase: Phase,
    /// Events of the latest update.
    pub events: FrameEvents,
}

/// A press edge: held now, not held in the previous frame.
pub open spec fn pressed(now: bool, before: bool) -> bool {
    now && !before
}

/// Whether the piece cannot move one row down.
pub open spec fn grounded_in(rows: Seq<Seq<Option<Tetromino>>>, piece: ActivePiece) -> bool {
    !fits_in(rows, piece.moved_to(piece.x as int, piece.y - 1))
}

/// Spawning (block out check, one-row drop, per-piece resets). Auto-shift
/// charge is kept on purpose.
#[verifier::opaque]
pub open spec fn st_spawn(s: GameState, kind: Tetromino) -> GameState {
    let piece = ActivePiece::spec_spawn(kind);
    if !fits_in(s.board, piece) {
        GameState { phase: Phase::GameOver, events: FrameEvents { topped_out: true, ..s.events }, ..s }
    } else {
        let fallen = piece.moved_to(piece.x as int, piece.y - 1);
        let p = if fits_in(s.board, fallen) {
            fallen
        } else {
            piece
        };
        GameState {
            active: p,
            gravity: GravityAccumulator::spec_new(),
            lock_delay: LockDelay::spec_new(p.y),
            last_rotation: false,
            last_kick: 0,
            ..s
        }
    }
}

/// All four cells of the piece lie above the visible area.
pub open spec fn locks_out(piece: ActivePiece) -> bool {
    forall|i: int| 0 <= i < 4 ==> #[trigger] piece.cell_y(i) >= 20
}

/// The lock event of locking the active piece of `s` (no lock out): lines
/// cleared, T-Spin (checked on the field before clearing), back-to-back,
/// combo, perfect clear, points and level up.
pub open spec fn lock_event(s: GameState) -> LockEvent {
    let placed = with_piece(s.board, s.active);
    let tspin = tspin_of(placed, s.active, s.last_rotation, s.last_kick);
    let lines = full_row_count(placed) as u8;
    let perfect_clear = lines > 0 && no_blocks(cleared_rows(placed));
    let scoring = s.scoring.after_lock(lines, tspin, perfect_clear);
    LockEvent {
        lines_cleared: lines,
        tspin,
        b2b_applied: s.scoring.b2b_applies_to(lines, tspin),
        combo: scoring.spec_combo(),
        perfect_clear,
        points_awarded: s.scoring.lock_points(lines, tspin, perfect_clear) as u32,
        level_up: scoring.spec_level() > s.scoring.spec_level(),
    }
}

/// The state right after a lock that does not top out, before the next
/// piece spawns: full rows cleared, the lock scored and reported, hold
/// released, the next piece taken from the queue.
pub open spec fn st_locked(s: GameState) -> GameState {
    let placed = with_piece(s.board, s.active);
    let event = lock_event(s);
    let refill = refilled(s.queue.drop_first(), s.rng);
    GameState {
        board: cleared_rows(placed),
        scoring: s.scoring.after_lock(event.lines_cleared, event.tspin, event.perfect_clear),
        events: FrameEvents { locked: Some(event), ..s.events },
        hold_used: false,
        queue: refill.0,
        rng: refill.1,
        ..s
    }
}

/// Locking: the piece is written into the field; lock out ends the game;
/// otherwise the T-Spin check (on the field before clearing), line clear,
/// perfect-clear check, scoring, hold release and the next spawn follow.
#[verifier::opaque]
pub open spec fn st_lock(s: GameState) -> GameState {
    if locks_out(s.active) {
        GameState {
            board: with_piece(s.board, s.active),
            phase: Phase::GameOver,
            events: FrameEvents { topped_out: true, ..s.events },
            ..s
        }
    } else {
        st_spawn(st_locked(s), s.queue[0])
    }
}

/// Hold: the active kind goes to the hold slot; the held kind (or the next
/// queued one when the slot was empty) spawns.
#[verifier::opaque]
pub open spec fn st_hold(s: GameState) -> GameState {
    let s1 = GameState {
        hold: Some(s.active.kind),
        hold_used: true,
        events: FrameEvents { hold_performed: true, ..s.events },
        ..s
    };
    match s.hold {
        Some(kind) => st_spawn(s1, kind),
        None => {
            let refill = refilled(s.queue.drop_first(), s.rng);
            st_spawn(GameState { queue: refill.0, rng: refill.1, ..s1 }, s.queue[0])
        },
    }
}

/// Cells a hard drop falls.
pub open spec fn hard_drop_cells(s: GameState) -> int {
    s.active.y - drop_row(s.board, s.active, s.active.y as int)
}

/// The drop part of a hard drop: the piece moves straight to the landing
/// row and scores two points per cell (at most 40); a drop of at least one
/// cell clears the rotation flag.
pub open spec fn st_drop_to_landing(s: GameState) -> GameState {
    let cells = hard_drop_cells(s);
    GameState {
        events: FrameEvents { hard_dropped: true, ..s.events },
        scoring: s.scoring.after_drop_points(2 * (if cells < 20 { cells } else { 20 })),
        last_rotation: if cells > 0 {
            false
        } else {
            s.last_rotation
        },
        active: s.active.moved_to(s.active.x as int, drop_row(s.board, s.active, s.active.y as int)),
        ..s
    }
}

/// Hard drop: drop to the landing row, then lock at once.
#[verifier::opaque]
pub open spec fn st_hard_drop(s: GameState) -> GameState {
    st_lock(st_drop_to_landing(s))
}

/// Rotation: only a successful rotation changes anything; it sets the
/// rotation flag and kick, and may reset the lock delay.
#[verifier::opaque]
pub open spec fn st_rotate(s: GameState, dir: RotateDir) -> GameState {
    match rotate_outcome(s.board, s.active, dir) {
        RotateOutcome::Rotated { piece, kick } => GameState {
            active: piece,
            last_rotation: true,
            last_kick: kick,
            events: FrameEvents { rotated: true, ..s.events },
            lock_delay: s.lock_delay.after_move(grounded_in(s.board, piece)),
            ..s
        },
        _ => s,
    }
}

/// Sideways move by `dx`: only a successful move changes anything.
#[verifier::opaque]
pub open spec fn st_shift(s: GameState, dx: int) -> GameState {
    let moved = s.active.moved_to(s.active.x + dx, s.active.y as int);
    if fits_in(s.board, moved) {
        GameState {
            active: moved,
            last_rotation: false,
            events: FrameEvents { shifted: true, ..s.events },
            lock_delay: s.lock_delay.after_move(grounded_in(s.board, moved)),
            ..s
        }
    } else {
        s
    }
}

/// Direction this frame; with both held the later press wins, and a
/// simultaneous press keeps the current direction.
pub open spec fn resolved_direction(das_dir: i8, b: Buttons, prev: Buttons) -> i8 {
    if !b.left && !b.right {
        0
    } else if b.left && !b.right {
        -1i8
    } else if !b.left && b.right {
        1
    } else if !prev.left && prev.right {
        -1i8
    } else if !prev.right && prev.left {
        1
    } else {
        das_dir
    }
}

/// Sideways movement with DAS/ARR: one cell on the press frame, the second
/// after DAS_FRAMES, then one every ARR_FRAMES. A blocked move still
/// advances the timer.
#[verifier::opaque]
pub open spec fn st_horizontal(s: GameState, b: Buttons, prev: Buttons) -> GameState {
    let dir = resolved_direction(s.das_dir, b, prev);
    if dir != s.das_dir {
        let s1 = GameState { das_dir: dir, das_timer: DAS_FRAMES, ..s };
        if dir != 0 {
            st_shift(s1, dir as int)
        } else {
            s1
        }
    } else if dir != 0 {
        let t: u8 = if s.das_timer == 0 {
            0
        } else {
            (s.das_timer - 1) as u8
        };
        if t == 0 {
            st_shift(GameState { das_timer: ARR_FRAMES, ..s }, dir as int)
        } else {
            GameState { das_timer: t, ..s }
        }
    } else {
        s
    }
}

/// Falls up to `n` rows; touching down clears the accumulator. Soft drop
/// scores one point and counts one row per cell fallen.
pub open spec fn st_fall_rows(s: GameState, n: int, soft: bool) -> GameState
    decreases n,
{
    if n <= 0 {
        s
    } else {
        let fallen = s.active.moved_to(s.active.x as int, s.active.y - 1);
        if !fits_in(s.board, fallen) {
            GameState { gravity: GravityAccumulator::spec_new(), ..s }
        } else {
            st_fall_rows(
                GameState {
                    active: fallen,
                    last_rotation: false,
                    lock_delay: s.lock_delay.after_fall(fallen.y),
                    scoring: if soft {
                        s.scoring.after_drop_points(1)
                    } else {
                        s.scoring
                    },
                    events: if soft {
                        FrameEvents { soft_drop_rows: (s.events.soft_drop_rows + 1) as u8, ..s.events }
                    } else {
                        s.events
                    },
                    ..s
                },
                n - 1,
                soft,
            )
        }
    }
}

/// Gravity of this frame: `G` of the effective level, times 20 with soft
/// drop.
pub open spec fn frame_gravity(s: GameState, soft: bool) -> u32 {
    let g = gravity_table(clamp_level(s.scoring.spec_effective_level()));
    if soft {
        (g * 20) as u32
    } else {
        g
    }
}

/// Gravity and soft drop.
#[verifier::opaque]
pub open spec fn st_gravity(s: GameState, soft: bool) -> GameState {
    let g = frame_gravity(s, soft);
    st_fall_rows(GameState { gravity: s.gravity.after_tick(g), ..s }, s.gravity.tick_rows(g), soft)
}

/// Grounded check and lock delay at the end of the frame, locking when due.
#[verifier::opaque]
pub open spec fn st_settle(s: GameState) -> GameState {
    let grounded = grounded_in(s.board, s.active);
    let s1 = if grounded {
        GameState { gravity: GravityAccumulator::spec_new(), ..s }
    } else {
        s
    };
    let s2 = GameState { lock_delay: s1.lock_delay.after_frame(grounded), ..s1 };
    if s1.lock_delay.frame_locks(grounded) {
        st_lock(s2)
    } else {
        s2
    }
}

/// The actions of a playing frame after the pause check: hold / hard drop,
/// rotation, sideways movement, gravity, lock delay.
#[verifier::opaque]
pub open spec fn st_play(s: GameState, b: Buttons, prev: Buttons) -> GameState {
    let s2 = if pressed(b.hold, prev.hold) && !s.hold_used {
        st_hold(s)
    } else if pressed(b.up, prev.up) {
        st_hard_drop(s)
    } else {
        s
    };
    if s2.phase == Phase::GameOver {
        s2
    } else {
        let s3 = if pressed(b.rotate_cw, prev.rotate_cw) {
            st_rotate(s2, RotateDir::Cw)
        } else if pressed(b.rotate_ccw, prev.rotate_ccw) {
            st_rotate(s2, RotateDir::Ccw)
        } else {
            s2
        };
        st_settle(st_gravity(st_horizontal(s3, b, prev), b.down))
    }
}

/// One frame. Events are cleared; after game over nothing else happens. The
/// first update treats its own buttons as the previous frame, so buttons
/// held from the title screen do not fire. A START press toggles pause and
/// ends the frame; while paused nothing advances.
#[verifier::opaque]
pub open spec fn st_update(s: GameState, b: Buttons) -> GameState {
    let s0 = GameState { events: FrameEvents::none(), ..s };
    if s.phase == Phase::GameOver {
        s0
    } else {
        let prev = if s.first_update {
            b
        } else {
            s.prev_buttons
        };
        let s1 = GameState { first_update: false, prev_buttons: b, ..s0 };
        if pressed(b.start, prev.start) {
            GameState {
                phase: if s.phase == Phase::Paused {
                    Phase::Playing
                } else {
                    Phase::Paused
                },
                ..s1
            }
        } else if s.phase == Phase::Paused {
            s1
        } else {
            st_play(s1, b, prev)
        }
    }
}

/// A new game: an empty field, the first bag dealt from `seed`, its first
/// piece spawned (with the usual one-row drop), everything else at rest.
pub open spec fn st_new(seed: u32, start_level: u32) -> GameState {
    let bag = shuffled_bag(seed_state(seed));
    let refill = refilled(bag.0.drop_first(), bag.1);
    st_spawn(
        GameState {
            board: empty_rows(),
            queue: refill.0,
            rng: refill.1,
            active: ActivePiece::spec_spawn(bag.0[0]),
            hold: None,
            hold_used: false,
            lock_delay: LockDelay::spec_new(0),
            gravity: GravityAccumulator::spec_new(),
            scoring: Scoring::spec_new(start_level),
            das_dir: 0,
            das_timer: DAS_FRAMES,
            prev_buttons: Buttons::released(),
            first_update: true,
            last_rotation: false,
            last_kick: 0,
            phase: Phase::Playing,
            events: FrameEvents::none(),
        },
        bag.0[0],
    )
}

/// On an empty field every kind fits at its spawn position and one row
/// below it.
pub proof fn lemma_spawn_fits_empty(kind: Tetromino)
    ensures
        fits_in(empty_rows(), ActivePiece::spec_spawn(kind)),
        fits_in(empty_rows(), ActivePiece::spec_spawn(kind).moved_to(ActivePiece::spec_spawn(kind).x as int, ActivePiece::spec_spawn(kind).y - 1)),
{
    let p = ActivePiece::spec_spawn(kind);
    let q = p.moved_to(p.x as int, p.y - 1);
    lemma_shape_in_box(kind, Rotation::Spawn);
    assert forall|i: int| 0 <= i < 4 implies !#[trigger] occupied_in(empty_rows(), p.cell_x(i), p.cell_y(i)) by {
        assert(in_field(p.cell_x(i), p.cell_y(i)));
    }
    assert forall|i: int| 0 <= i < 4 implies !#[trigger] occupied_in(empty_rows(), q.cell_x(i), q.cell_y(i)) by {
        assert(in_field(q.cell_x(i), q.cell_y(i)));
    }
}

/// The landing spot of a fitting piece fits, no lower than row -3.
pub proof fn lemma_landing_fits(s: GameState)
    requires
        game_inv(s),
        s.phase != Phase::GameOver,
    ensures
        s.active.cells_in_range(),
        -3 <= s.active.y <= 39,
        -3 <= drop_row(s.board, s.active, s.active.y as int) <= s.active.y,
        fits_in(s.board, s.active.moved_to(s.active.x as int, drop_row(s.board, s.active, s.active.y as int))),
        s.active.moved_to(s.active.x as int, drop_row(s.board, s.active, s.active.y as int)).y == drop_row(
            s.board,
            s.active,
            s.active.y as int,
        ),
{
    let g = drop_row(s.board, s.active, s.active.y as int);
    lemma_fits_in_bounds(s.board, s.active);
    lemma_drop_row_range(s.board, s.active, s.active.y as int);
    lemma_drop_row_lands(s.board, s.active, s.active.y as int);
    if g < s.active.y {
        assert(fits_in(s.board, s.active.moved_to(s.active.x as int, g)));
    } else {
        assert(s.active.moved_to(s.active.x as int, g) == s.active);
    }
}

/// Where the active piece would land: straight down until it touches.
pub open spec fn ghost_of(s: GameState) -> ActivePiece {
    s.active.moved_to(s.active.x as int, drop_row(s.board, s.active, s.active.y as int))
}

/// Structural facts that hold at every step of a frame.
pub open spec fn base_inv(s: GameState) -> bool {
    &&& well_shaped(s.board)
    &&& 6 <= s.queue.len() <= 12
    &&& -1 <= s.das_dir <= 1
    &&& s.scoring.spec_combo() >= -1
    &&& s.gravity.spec_acc() < 65536
}

/// The game invariant: outside game over the active piece fits the field.
pub open spec fn game_inv(s: GameState) -> bool {
    &&& base_inv(s)
    &&& s.phase != Phase::GameOver ==> fits_in(s.board, s.active)
}

/// Upper bound of the points of one lock at combo counter `combo`.
pub open spec fn lock_points_bound(combo: int) -> int {
    112000 + 1000 * (combo + 1)
}

/// The counters can absorb `spare` more points and one more lock without
/// overflowing.
pub open spec fn lock_headroom(sc: Scoring, spare: int) -> bool {
    &&& sc.spec_combo() + 1 < 32767
    &&& sc.spec_score() + spare + lock_points_bound(sc.spec_combo() as int) <= u32::MAX
    &&& sc.spec_total_lines() + 40 <= u32::MAX
    &&& sc.spec_start_level() + (sc.spec_total_lines() + 40) / 10 <= u32::MAX
}

/// Scoring only grew: by at most `points` points and `lines` lines, the
/// start level unchanged, the combo counter at least -1.
pub open spec fn scoring_step(a: Scoring, b: Scoring, points: int, lines: int) -> bool {
    &&& b.spec_start_level() == a.spec_start_level()
    &&& a.spec_score() <= b.spec_score() <= a.spec_score() + points
    &&& a.spec_total_lines() <= b.spec_total_lines() <= a.spec_total_lines() + lines
    &&& b.spec_combo() >= -1
}

/// A margin in the counters for any frame (two locks, drop points), which
/// `Game::update` accepts in place of [`frame_fits`] and which is quick to
/// test. Far beyond any real game.
pub open spec fn frame_headroom(s: GameState) -> bool {
    let sc = s.scoring;
    &&& sc.spec_combo() + 2 < 32767
    &&& sc.spec_score() + lock_points_bound(sc.spec_combo() as int) + lock_points_bound(sc.spec_combo() + 1)
        + 200 <= u32::MAX
    &&& sc.spec_total_lines() + 80 <= u32::MAX
    &&& sc.spec_start_level() + (sc.spec_total_lines() + 80) / 10 <= u32::MAX
}

/// Rows the gravity of a frame lets the active piece fall: the rows the
/// accumulator hands out, at most the rows to its landing.
pub open spec fn gravity_rows(s: GameState, soft: bool) -> int {
    let r = s.gravity.tick_rows(frame_gravity(s, soft));
    let m = rows_to_landing(s);
    if r < m {
        r
    } else {
        m
    }
}

/// Locking the active piece of `s` keeps the counters representable: a
/// lock out scores nothing; otherwise the lock's points, lines and combo
/// fit.
pub open spec fn lock_fits(s: GameState) -> bool {
    let e = lock_event(s);
    !locks_out(s.active) ==> s.scoring.can_lock(e.lines_cleared, e.tspin, e.perfect_clear)
}

/// A hard drop from `s` keeps the counters representable: its drop points,
/// then its lock.
pub open spec fn hard_drop_fits(s: GameState) -> bool {
    &&& s.scoring.spec_score() + 2 * (if hard_drop_cells(s) < 20 {
        hard_drop_cells(s)
    } else {
        20
    }) <= u32::MAX
    &&& lock_fits(st_drop_to_landing(s))
}

/// The end of a frame from `s` keeps the counters representable: when the
/// lock delay locks the piece, the lock fits.
pub open spec fn settle_fits(s: GameState) -> bool {
    s.lock_delay.frame_locks(grounded_in(s.board, s.active)) ==> lock_fits(s)
}

/// A playing frame from `s` with buttons `b` (previous `prev`) keeps every
/// counter representable, step by step as [`st_play`] takes them: the hard
/// drop, the soft-drop points, the lock at the end of the frame.
pub open spec fn play_fits(s: GameState, b: Buttons, prev: Buttons) -> bool {
    let hold = pressed(b.hold, prev.hold) && !s.hold_used;
    let hard = !hold && pressed(b.up, prev.up);
    let s2 = if hold {
        st_hold(s)
    } else if hard {
        st_hard_drop(s)
    } else {
        s
    };
    let s3 = if pressed(b.rotate_cw, prev.rotate_cw) {
        st_rotate(s2, RotateDir::Cw)
    } else if pressed(b.rotate_ccw, prev.rotate_ccw) {
        st_rotate(s2, RotateDir::Ccw)
    } else {
        s2
    };
    let s4 = st_horizontal(s3, b, prev);
    &&& hard ==> hard_drop_fits(s)
    &&& s2.phase != Phase::GameOver ==> {
        &&& b.down ==> s4.scoring.spec_score() + gravity_rows(s4, true) <= u32::MAX
        &&& settle_fits(st_gravity(s4, b.down))
    }
}

/// The update of `s` with `b` keeps every counter representable: exactly
/// the frames on which no addition of the frame overflows.
pub open spec fn frame_fits(s: GameState, b: Buttons) -> bool {
    plays_frame(s, b) ==> play_fits(
        GameState { events: FrameEvents::none(), first_update: false, prev_buttons: b, ..s },
        b,
        previous_buttons(s, b),
    )
}

/// Rows to the landing are at most 42 (from row 39 down to row -3).
proof fn lemma_rows_to_landing_bound(s: GameState)
    requires
        fits_in(s.board, s.active),
    ensures
        0 <= rows_to_landing(s) <= 42,
{
    lemma_fits_in_bounds(s.board, s.active);
    lemma_drop_row_range(s.board, s.active, s.active.y as int);
}

/// With the headroom of a lock plus 40 points, a hard drop fits.
proof fn lemma_hard_drop_headroom_fits(s: GameState)
    requires
        game_inv(s),
        s.phase != Phase::GameOver,
        lock_headroom(s.scoring, 40),
    ensures
        hard_drop_fits(s),
{
    lemma_landing_fits(s);
    let d = hard_drop_cells(s);
    s.scoring.lemma_after_drop_points(2 * (if d < 20 { d } else { 20 }), 0);
    lemma_lock_headroom_fits(st_drop_to_landing(s));
}

/// With the lock headroom, the lock of the active piece fits.
proof fn lemma_lock_headroom_fits(s: GameState)
    requires
        base_inv(s),
        lock_headroom(s.scoring, 0),
    ensures
        lock_fits(s),
{
    let placed = with_piece(s.board, s.active);
    lemma_full_row_count_bounds(placed);
    let e = lock_event(s);
    s.scoring.lemma_lock_points_bound(e.lines_cleared, e.tspin, e.perfect_clear);
}

/// Buttons that the update of `s` compares `b` against.
pub open spec fn previous_buttons(s: GameState, b: Buttons) -> Buttons {
    if s.first_update {
        b
    } else {
        s.prev_buttons
    }
}

/// Whether an update with `b` plays a frame of the game (and may move the
/// counters): the game is running and START is not newly pressed.
pub open spec fn plays_frame(s: GameState, b: Buttons) -> bool {
    s.phase == Phase::Playing && !pressed(b.start, previous_buttons(s, b).start)
}

/// After game over an update only clears the events.
pub proof fn lemma_game_over_is_inert(s: GameState, b: Buttons)
    requires
        s.phase == Phase::GameOver,
    ensures
        st_update(s, b) == (GameState { events: FrameEvents::none(), ..s }),
{
    reveal(st_update);
}

/// While paused, a frame without a START press freezes the game: only the
/// events are cleared and the buttons remembered.
pub proof fn lemma_pause_freezes(s: GameState, b: Buttons)
    requires
        s.phase == Phase::Paused,
        !pressed(b.start, previous_buttons(s, b).start),
    ensures
        st_update(s, b) == (GameState { events: FrameEvents::none(), first_update: false, prev_buttons: b, ..s }),
{
    reveal(st_update);
}

/// A START press toggles between playing and paused and does nothing else
/// in that frame.
pub proof fn lemma_start_toggles_pause(s: GameState, b: Buttons)
    requires
        s.phase != Phase::GameOver,
        pressed(b.start, previous_buttons(s, b).start),
    ensures
        st_update(s, b) == (GameState {
            phase: if s.phase == Phase::Paused {
                Phase::Playing
            } else {
                Phase::Paused
            },
            events: FrameEvents::none(),
            first_update: false,
            prev_buttons: b,
            ..s
        }),
{
    reveal(st_update);
}

/// Spawning keeps the queue, the hold slot and the hold flag.
proof fn lemma_spawn_keeps(s: GameState, kind: Tetromino)
    ensures
        st_spawn(s, kind).queue == s.queue,
        st_spawn(s, kind).hold == s.hold,
        st_spawn(s, kind).hold_used == s.hold_used,
        st_spawn(s, kind).events.hold_performed == s.events.hold_performed,
        st_spawn(s, kind).phase != Phase::GameOver ==> st_spawn(s, kind).active.kind == kind,
        st_spawn(s, kind).board == s.board,
        st_spawn(s, kind).scoring == s.scoring,
        st_spawn(s, kind).events.locked == s.events.locked,
        st_spawn(s, kind).phase == (if fits_in(s.board, ActivePiece::spec_spawn(kind)) {
            s.phase
        } else {
            Phase::GameOver
        }),
        st_spawn(s, kind).events.topped_out == (s.events.topped_out || !fits_in(
            s.board,
            ActivePiece::spec_spawn(kind),
        )),
{
    reveal(st_spawn);
}

/// A lock that does not top out moves the queue up by one: the next piece
/// becomes the active piece unless the game ends, every later next piece
/// moves one place forward, and hold is available again.
pub proof fn lemma_lock_advances_queue(s: GameState)
    requires
        base_inv(s),
        !locks_out(s.active),
    ensures
        forall|i: int| 0 <= i < s.queue.len() - 1 ==> #[trigger] st_lock(s).queue[i] == s.queue[i + 1],
        st_lock(s).queue.len() >= 6,
        st_lock(s).phase != Phase::GameOver ==> st_lock(s).active.kind == s.queue[0],
        !st_lock(s).hold_used,
{
    reveal(st_lock);
    let rest = s.queue.drop_first();
    let refill = refilled(rest, s.rng);
    lemma_refill_keeps_order(rest, s.rng);
    assert forall|i: int| 0 <= i < s.queue.len() - 1 implies #[trigger] refill.0[i] == s.queue[i + 1] by {
        assert(refill.0.subrange(0, rest.len() as int)[i] == refill.0[i]);
    }
    lemma_spawn_keeps(st_locked(s), s.queue[0]);
}

/// Locking keeps the hold slot and the hold event flag.
proof fn lemma_lock_keeps_hold(s: GameState)
    ensures
        st_lock(s).hold == s.hold,
        st_lock(s).events.hold_performed == s.events.hold_performed,
{
    reveal(st_lock);
    lemma_spawn_keeps(st_locked(s), s.queue[0]);
}

/// Falling keeps the hold slot and the hold event flag.
proof fn lemma_fall_keeps_hold(s: GameState, n: int, soft: bool)
    ensures
        st_fall_rows(s, n, soft).hold == s.hold,
        st_fall_rows(s, n, soft).events.hold_performed == s.events.hold_performed,
    decreases n,
{
    if n > 0 {
        let fallen = s.active.moved_to(s.active.x as int, s.active.y - 1);
        if fits_in(s.board, fallen) {
            lemma_fall_keeps_hold(
                GameState {
                    active: fallen,
                    last_rotation: false,
                    lock_delay: s.lock_delay.after_fall(fallen.y),
                    scoring: if soft {
                        s.scoring.after_drop_points(1)
                    } else {
                        s.scoring
                    },
                    events: if soft {
                        FrameEvents { soft_drop_rows: (s.events.soft_drop_rows + 1) as u8, ..s.events }
                    } else {
                        s.events
                    },
                    ..s
                },
                n - 1,
                soft,
            );
        }
    }
}

/// Every step of a frame other than the hold itself keeps the hold slot and
/// the hold event flag.
proof fn lemma_steps_keep_hold(s: GameState, b: Buttons, prev: Buttons, dir: RotateDir, dx: int, soft: bool)
    ensures
        st_hard_drop(s).hold == s.hold,
        st_hard_drop(s).events.hold_performed == s.events.hold_performed,
        st_rotate(s, dir).hold == s.hold,
        st_rotate(s, dir).events.hold_performed == s.events.hold_performed,
        st_shift(s, dx).hold == s.hold,
        st_shift(s, dx).events.hold_performed == s.events.hold_performed,
        st_horizontal(s, b, prev).hold == s.hold,
        st_horizontal(s, b, prev).events.hold_performed == s.events.hold_performed,
        st_gravity(s, soft).hold == s.hold,
        st_gravity(s, soft).events.hold_performed == s.events.hold_performed,
        st_settle(s).hold == s.hold,
        st_settle(s).events.hold_performed == s.events.hold_performed,
{
    reveal(st_hard_drop);
    reveal(st_rotate);
    reveal(st_shift);
    reveal(st_horizontal);
    reveal(st_gravity);
    reveal(st_settle);
    lemma_lock_keeps_hold(st_drop_to_landing(s));
    let g = frame_gravity(s, soft);
    lemma_fall_keeps_hold(GameState { gravity: s.gravity.after_tick(g), ..s }, s.gravity.tick_rows(g), soft);
    let grounded = grounded_in(s.board, s.active);
    let s1 = if grounded {
        GameState { gravity: GravityAccumulator::spec_new(), ..s }
    } else {
        s
    };
    lemma_lock_keeps_hold(GameState { lock_delay: s1.lock_delay.after_frame(grounded), ..s1 });
    let d = resolved_direction(s.das_dir, b, prev);
    let t: u8 = if s.das_timer == 0 {
        0
    } else {
        (s.das_timer - 1) as u8
    };
    assert(st_shift(GameState { das_dir: d, das_timer: DAS_FRAMES, ..s }, d as int).hold == s.hold);
    assert(st_shift(GameState { das_timer: ARR_FRAMES, ..s }, d as int).hold == s.hold);
}

/// Hold works once per piece: once a hold was used, further hold presses
/// leave the hold slot alone until the piece locks.
pub proof fn lemma_hold_once_per_piece(s: GameState, b: Buttons)
    requires
        s.hold_used,
    ensures
        st_update(s, b).hold == s.hold,
        !st_update(s, b).events.hold_performed,
{
    reveal(st_update);
    reveal(st_play);
    let prev = previous_buttons(s, b);
    let s1 = GameState { first_update: false, prev_buttons: b, events: FrameEvents::none(), ..s };
    lemma_steps_keep_hold(s1, b, prev, RotateDir::Cw, 0, b.down);
    let s2 = if pressed(b.up, prev.up) {
        st_hard_drop(s1)
    } else {
        s1
    };
    let s3 = if pressed(b.rotate_cw, prev.rotate_cw) {
        st_rotate(s2, RotateDir::Cw)
    } else if pressed(b.rotate_ccw, prev.rotate_ccw) {
        st_rotate(s2, RotateDir::Ccw)
    } else {
        s2
    };
    lemma_steps_keep_hold(s2, b, prev, RotateDir::Cw, 0, b.down);
    lemma_steps_keep_hold(s2, b, prev, RotateDir::Ccw, 0, b.down);
    lemma_steps_keep_hold(s3, b, prev, RotateDir::Cw, 0, b.down);
    let s4 = st_horizontal(s3, b, prev);
    lemma_steps_keep_hold(s4, b, prev, RotateDir::Cw, 0, b.down);
    let s5 = st_gravity(s4, b.down);
    lemma_steps_keep_hold(s5, b, prev, RotateDir::Cw, 0, b.down);
}

/// A hold marks the hold as used for the new piece and puts the old kind in
/// the slot.
pub proof fn lemma_hold_marks_used(s: GameState)
    ensures
        st_hold(s).hold_used,
        st_hold(s).hold == Some(s.active.kind),
        st_hold(s).events.hold_performed,
{
    reveal(st_hold);
    let s1 = GameState {
        hold: Some(s.active.kind),
        hold_used: true,
        events: FrameEvents { hold_performed: true, ..s.events },
        ..s
    };
    let refill = refilled(s.queue.drop_first(), s.rng);
    lemma_spawn_keeps(GameState { queue: refill.0, rng: refill.1, ..s1 }, s.queue[0]);
    if let Some(k) = s.hold {
        lemma_spawn_keeps(s1, k);
    }
}

/// The state after a run of frames with the given buttons.
pub open spec fn st_run(s: GameState, inputs: Seq<Buttons>) -> GameState
    decreases inputs.len(),
{
    if inputs.len() == 0 {
        s
    } else {
        st_run(st_update(s, inputs[0]), inputs.drop_first())
    }
}

/// A paused game stays frozen for any number of frames in which START is
/// not held: nothing but the events and the remembered buttons changes.
pub proof fn lemma_pause_freezes_run(s: GameState, inputs: Seq<Buttons>)
    requires
        s.phase == Phase::Paused,
        inputs.len() > 0,
        forall|i: int| 0 <= i < inputs.len() ==> !(#[trigger] inputs[i]).start,
    ensures
        st_run(s, inputs) == (GameState {
            events: FrameEvents::none(),
            first_update: false,
            prev_buttons: inputs.last(),
            ..s
        }),
    decreases inputs.len(),
{
    lemma_pause_freezes(s, inputs[0]);
    let s1 = st_update(s, inputs[0]);
    let rest = inputs.drop_first();
    assert(st_run(s, inputs) == st_run(s1, rest));
    if rest.len() == 0 {
        assert(st_run(s1, rest) == s1);
    } else {
        assert forall|i: int| 0 <= i < rest.len() implies !(#[trigger] rest[i]).start by {
            assert(rest[i] == inputs[i + 1]);
        }
        lemma_pause_freezes_run(s1, rest);
        assert(rest.last() == inputs.last());
    }
}

/// After game over every run of frames leaves the game as it was, apart
/// from clearing the events.
pub proof fn lemma_game_over_run(s: GameState, inputs: Seq<Buttons>)
    requires
        s.phase == Phase::GameOver,
        inputs.len() > 0,
    ensures
        st_run(s, inputs) == (GameState { events: FrameEvents::none(), ..s }),
    decreases inputs.len(),
{
    lemma_game_over_is_inert(s, inputs[0]);
    let s1 = st_update(s, inputs[0]);
    let rest = inputs.drop_first();
    assert(st_run(s, inputs) == st_run(s1, rest));
    if rest.len() == 0 {
        assert(st_run(s1, rest) == s1);
    } else {
        lemma_game_over_run(s1, rest);
    }
}

/// What a hard drop does from `s` (see [`lemma_hard_drop_lands_on_ghost`]).
pub open spec fn hard_drop_law(s: GameState) -> bool {
    &&& 0 <= hard_drop_cells(s)
    &&& st_drop_to_landing(s).active == ghost_of(s)
    &&& st_drop_to_landing(s).events.hard_dropped
    &&& st_drop_to_landing(s).scoring.spec_score() == s.scoring.spec_score() + 2 * (if hard_drop_cells(s) < 20 {
        hard_drop_cells(s)
    } else {
        20
    })
    &&& st_drop_to_landing(s).last_rotation == (hard_drop_cells(s) == 0 && s.last_rotation)
    &&& st_drop_to_landing(s).board == s.board
    &&& st_hard_drop(s) == st_lock(st_drop_to_landing(s))
}

/// A hard drop moves the piece straight to its ghost and locks it there at
/// once, whatever the lock delay: it scores two points per cell fallen (at
/// most 40), reports the drop, and clears the rotation flag only when the
/// piece actually fell, so a rotation just before a zero-cell drop still
/// counts for the T-Spin check.
pub proof fn lemma_hard_drop_lands_on_ghost(s: GameState)
    requires
        game_inv(s),
        s.phase != Phase::GameOver,
        s.scoring.spec_score() + 2 * (if hard_drop_cells(s) < 20 {
            hard_drop_cells(s)
        } else {
            20
        }) <= u32::MAX,
    ensures
        hard_drop_law(s),
{
    reveal(st_hard_drop);
    lemma_landing_fits(s);
    let d = hard_drop_cells(s);
    s.scoring.lemma_after_drop_points(2 * (if d < 20 { d } else { 20 }), 0);
}

/// Lock out: a piece locked with all four cells above the visible area is
/// written into the field and ends the game, reporting the top out; no line
/// is cleared, nothing is scored, no lock event is reported and no piece
/// spawns.
pub proof fn lemma_lock_out(s: GameState)
    requires
        locks_out(s.active),
    ensures
        st_lock(s) == (GameState {
            board: with_piece(s.board, s.active),
            phase: Phase::GameOver,
            events: FrameEvents { topped_out: true, ..s.events },
            ..s
        }),
{
    reveal(st_lock);
}

/// What a lock that does not top out does, from `s` to `t` (see
/// [`lemma_lock_scores`]).
pub open spec fn lock_scoring_law(s: GameState, t: GameState) -> bool {
    let placed = with_piece(s.board, s.active);
    let e = lock_event(s);
    let lines = full_row_count(placed);
    &&& t.events.locked == Some(e)
    &&& e.lines_cleared == lines
    &&& e.tspin == tspin_of(placed, s.active, s.last_rotation, s.last_kick)
    &&& e.b2b_applied == (is_hard_clear(e.lines_cleared, e.tspin) && s.scoring.spec_b2b())
    &&& e.perfect_clear == (lines > 0 && no_blocks(cleared_rows(placed)))
    &&& e.points_awarded == s.scoring.lock_points(e.lines_cleared, e.tspin, e.perfect_clear)
    &&& e.combo == t.scoring.spec_combo()
    &&& e.level_up == (t.scoring.spec_level() > s.scoring.spec_level())
    &&& t.scoring.spec_score() == s.scoring.spec_score() + e.points_awarded
    &&& t.scoring.spec_total_lines() == s.scoring.spec_total_lines() + lines
    &&& t.board == cleared_rows(placed)
    &&& t.phase == (if fits_in(cleared_rows(placed), ActivePiece::spec_spawn(s.queue[0])) {
        s.phase
    } else {
        Phase::GameOver
    })
    &&& t.phase != Phase::GameOver ==> t.active.kind == s.queue[0]
}

/// A lock that does not top out: the lock event reports the lines cleared,
/// the T-Spin of the piece on the field before clearing, the back-to-back
/// bonus, the combo, the perfect clear, the points and the level up; the
/// full rows are cleared, the points and lines are added, and the next
/// piece spawns unless it is blocked, which ends the game.
pub proof fn lemma_lock_scores(s: GameState)
    requires
        base_inv(s),
        !locks_out(s.active),
        s.scoring.can_lock(
            full_row_count(with_piece(s.board, s.active)) as u8,
            lock_event(s).tspin,
            lock_event(s).perfect_clear,
        ),
    ensures
        lock_scoring_law(s, st_lock(s)),
{
    reveal(st_lock);
    let placed = with_piece(s.board, s.active);
    lemma_full_row_count_bounds(placed);
    let e = lock_event(s);
    s.scoring.lemma_after_lock(e.lines_cleared, e.tspin, e.perfect_clear);
    s.scoring.lemma_lock_points_bound(e.lines_cleared, e.tspin, e.perfect_clear);
    lemma_spawn_keeps(st_locked(s), s.queue[0]);
}

/// A successful rotation moves the piece to the rotated position, sets the
/// rotation flag and kick, and resets the lock delay as a successful shift
/// does: when the rotated piece is grounded and fewer than fifteen resets
/// are used, one reset is spent and the timer is back at the full delay;
/// otherwise the lock delay is kept.
pub proof fn lemma_rotation_resets_lock_delay(s: GameState, dir: RotateDir, piece: ActivePiece, kick: u8)
    requires
        rotate_outcome(s.board, s.active, dir) == (RotateOutcome::Rotated { piece, kick }),
    ensures
        st_rotate(s, dir).active == piece,
        st_rotate(s, dir).last_rotation,
        st_rotate(s, dir).last_kick == kick,
        grounded_in(s.board, piece) && s.lock_delay.spec_reset_count() < LOCK_RESET_MAX ==> {
            &&& st_rotate(s, dir).lock_delay.spec_timer() == LOCK_DELAY_FRAMES
            &&& st_rotate(s, dir).lock_delay.spec_reset_count() == s.lock_delay.spec_reset_count() + 1
        },
        !(grounded_in(s.board, piece) && s.lock_delay.spec_reset_count() < LOCK_RESET_MAX) ==> st_rotate(
            s,
            dir,
        ).lock_delay == s.lock_delay,
{
    reveal(st_rotate);
    lemma_move_reset(s.lock_delay, grounded_in(s.board, piece));
}

/// A successful shift by `dx` resets the lock delay in the same way: when
/// the moved piece is grounded and fewer than fifteen resets are used, one
/// reset is spent and the timer is back at the full delay; otherwise the
/// lock delay is kept. A blocked shift changes nothing.
pub proof fn lemma_shift_resets_lock_delay(s: GameState, dx: int)
    ensures
        ({
            let moved = s.active.moved_to(s.active.x + dx, s.active.y as int);
            let t = st_shift(s, dx);
            &&& fits_in(s.board, moved) ==> {
                &&& t.active == moved
                &&& !t.last_rotation
                &&& (grounded_in(s.board, moved) && s.lock_delay.spec_reset_count() < LOCK_RESET_MAX) ==> {
                    &&& t.lock_delay.spec_timer() == LOCK_DELAY_FRAMES
                    &&& t.lock_delay.spec_reset_count() == s.lock_delay.spec_reset_count() + 1
                }
                &&& !(grounded_in(s.board, moved) && s.lock_delay.spec_reset_count() < LOCK_RESET_MAX)
                    ==> t.lock_delay == s.lock_delay
            }
            &&& !fits_in(s.board, moved) ==> t == s
        }),
{
    reveal(st_shift);
    let moved = s.active.moved_to(s.active.x + dx, s.active.y as int);
    lemma_move_reset(s.lock_delay, grounded_in(s.board, moved));
}

/// Lock out needs all four cells above the visible area: a lock with at
/// least one cell in the visible area (row below 20) never ends the game by
/// itself. The piece is written into the field, full rows are cleared, the
/// lock is scored and reported, and the next piece spawns; the game ends
/// only when that spawn is blocked.
pub proof fn lemma_visible_lock_continues(s: GameState, i: int)
    requires
        base_inv(s),
        s.phase != Phase::GameOver,
        0 <= i < 4,
        s.active.cell_y(i) < 20,
        s.scoring.can_lock(lock_event(s).lines_cleared, lock_event(s).tspin, lock_event(s).perfect_clear),
    ensures
        st_lock(s).events.locked == Some(lock_event(s)),
        st_lock(s).board == cleared_rows(with_piece(s.board, s.active)),
        st_lock(s).scoring.spec_score() == s.scoring.spec_score() + lock_event(s).points_awarded,
        fits_in(cleared_rows(with_piece(s.board, s.active)), ActivePiece::spec_spawn(s.queue[0])) ==> {
            &&& st_lock(s).phase == s.phase
            &&& st_lock(s).events.topped_out == s.events.topped_out
            &&& st_lock(s).active.kind == s.queue[0]
        },
        !fits_in(cleared_rows(with_piece(s.board, s.active)), ActivePiece::spec_spawn(s.queue[0])) ==> {
            &&& st_lock(s).phase == Phase::GameOver
            &&& st_lock(s).events.topped_out
        },
{
    assert(!locks_out(s.active)) by {
        assert(s.active.cell_y(i) < 20);
    }
    lemma_lock_scores(s);
    reveal(st_lock);
    lemma_spawn_keeps(st_locked(s), s.queue[0]);
}

/// The direction table: one side held moves that way; with both held the
/// side pressed later wins, else the current direction stays.
pub open spec fn direction_table(cur: i8, b: Buttons, p: Buttons) -> i8 {
    match (b.left, b.right) {
        (false, false) => 0i8,
        (true, false) => -1i8,
        (false, true) => 1i8,
        (true, true) => if !p.left && p.right {
            -1i8
        } else if p.left && !p.right {
            1i8
        } else {
            cur
        },
    }
}

/// The direction of a frame: one side held moves that way; with both held
/// the side pressed later wins, and a press of both in the same frame, or
/// both still held, keeps the current direction.
pub proof fn lemma_resolved_direction(cur: i8, b: Buttons, p: Buttons)
    ensures
        resolved_direction(cur, b, p) == direction_table(cur, b, p),
{
}

/// Rows the active piece can still fall before it touches down.
pub open spec fn rows_to_landing(s: GameState) -> int {
    s.active.y - drop_row(s.board, s.active, s.active.y as int)
}

/// Where a piece lands depends on its kind, rotation and column only.
proof fn lemma_drop_row_same_column(rows: Seq<Seq<Option<Tetromino>>>, p: ActivePiece, q: ActivePiece, y: int)
    requires
        p.kind == q.kind,
        p.rot == q.rot,
        p.x == q.x,
    ensures
        drop_row(rows, p, y) == drop_row(rows, q, y),
    decreases y + 4,
{
    assert(p.moved_to(p.x as int, y - 1) == q.moved_to(q.x as int, y - 1));
    if y - 1 >= -3 && fits_in(rows, p.moved_to(p.x as int, y - 1)) {
        lemma_drop_row_same_column(rows, p, q, y - 1);
    }
}

/// A piece that fits one row lower has one row less to its landing.
proof fn lemma_fall_one_row(s: GameState, fallen: ActivePiece)
    requires
        fits_in(s.board, s.active),
        fallen == s.active.moved_to(s.active.x as int, s.active.y - 1),
        fits_in(s.board, fallen),
    ensures
        rows_to_landing(s) >= 1,
        rows_to_landing(GameState { active: fallen, ..s }) == rows_to_landing(s) - 1,
{
    lemma_fits_in_bounds(s.board, s.active);
    lemma_fits_in_bounds(s.board, fallen);
    lemma_drop_row_range(s.board, s.active, s.active.y - 1);
    assert(drop_row(s.board, s.active, s.active.y as int) == drop_row(s.board, s.active, s.active.y - 1));
    lemma_drop_row_same_column(s.board, fallen, s.active, fallen.y as int);
}

/// Falling up to `n` rows: the piece falls `f = min(n, rows to landing)`
/// rows; a soft drop scores and counts each row; a fall clears the rotation
/// flag; touching down before `n` rows clears the accumulator.
proof fn lemma_fall_rows_model(s: GameState, n: int, soft: bool)
    requires
        game_inv(s),
        s.phase != Phase::GameOver,
        n >= 0,
        soft ==> s.scoring.spec_score() + (if n < rows_to_landing(s) {
            n
        } else {
            rows_to_landing(s)
        }) <= u32::MAX,
        soft ==> s.events.soft_drop_rows + rows_to_landing(s) <= 255,
    ensures
        ({
            let m = rows_to_landing(s);
            let f = if n < m {
                n
            } else {
                m
            };
            let t = st_fall_rows(s, n, soft);
            &&& 0 <= m
            &&& t.active == s.active.moved_to(s.active.x as int, s.active.y - f)
            &&& t.scoring == (if soft {
                s.scoring.after_drop_points(f)
            } else {
                s.scoring
            })
            &&& t.events == (if soft {
                FrameEvents { soft_drop_rows: (s.events.soft_drop_rows + f) as u8, ..s.events }
            } else {
                s.events
            })
            &&& t.last_rotation == (f == 0 && s.last_rotation)
            &&& t.gravity == (if f < n {
                GravityAccumulator::spec_new()
            } else {
                s.gravity
            })
            &&& t.board == s.board
            &&& t.phase == s.phase
        }),
    decreases n,
{
    lemma_drop_row_range(s.board, s.active, s.active.y as int);
    lemma_fits_in_bounds(s.board, s.active);
    s.scoring.lemma_after_drop_points(0, 0);
    if n > 0 {
        let fallen = s.active.moved_to(s.active.x as int, s.active.y - 1);
        if fits_in(s.board, fallen) {
            lemma_fits_in_bounds(s.board, fallen);
            lemma_fall_one_row(s, fallen);
            if soft {
                s.scoring.lemma_after_drop_points(1, 0);
            }
            let s1 = GameState {
                active: fallen,
                last_rotation: false,
                lock_delay: s.lock_delay.after_fall(fallen.y),
                scoring: if soft {
                    s.scoring.after_drop_points(1)
                } else {
                    s.scoring
                },
                events: if soft {
                    FrameEvents { soft_drop_rows: (s.events.soft_drop_rows + 1) as u8, ..s.events }
                } else {
                    s.events
                },
                ..s
            };
            assert(rows_to_landing(s1) == rows_to_landing(s) - 1);
            lemma_fall_rows_model(s1, n - 1, soft);
            let m = rows_to_landing(s);
            let f = if n < m {
                n
            } else {
                m
            };
            if soft {
                s.scoring.lemma_after_drop_points(1, f - 1);
            }
            assert(fallen.moved_to(fallen.x as int, fallen.y - (f - 1)) == s.active.moved_to(
                s.active.x as int,
                s.active.y - f,
            ));
        }
    }
}

/// What the gravity of a frame does, from `s` to `t` (see
/// [`lemma_gravity_model`]).
pub open spec fn gravity_law(s: GameState, t: GameState, soft: bool) -> bool {
    let g = frame_gravity(s, soft);
    let r = s.gravity.tick_rows(g);
    let m = rows_to_landing(s);
    let f = if r < m {
        r
    } else {
        m
    };
    &&& g == gravity_table(clamp_level(s.scoring.spec_effective_level())) * (if soft {
        20int
    } else {
        1int
    })
    &&& 0 <= f <= m
    &&& t.active == s.active.moved_to(s.active.x as int, s.active.y - f)
    &&& t.scoring.spec_score() == s.scoring.spec_score() + (if soft {
        f
    } else {
        0
    })
    &&& t.events.soft_drop_rows == s.events.soft_drop_rows + (if soft {
        f
    } else {
        0
    })
    &&& t.last_rotation == (f == 0 && s.last_rotation)
    &&& t.gravity == (if f < r {
        GravityAccumulator::spec_new()
    } else {
        s.gravity.after_tick(g)
    })
}

/// Gravity of a frame (soft drop multiplies it by 20): the accumulator
/// hands out `r` rows, and the piece falls `f = min(r, rows to landing)`
/// rows, keeping its kind, rotation and column. A soft drop scores one point
/// and counts one row per cell fallen; any fall clears the rotation flag;
/// touching down before `r` rows clears the accumulator.
pub proof fn lemma_gravity_model(s: GameState, soft: bool)
    requires
        game_inv(s),
        s.phase != Phase::GameOver,
        soft ==> s.scoring.spec_score() + gravity_rows(s, soft) <= u32::MAX,
        soft ==> s.events.soft_drop_rows + rows_to_landing(s) <= 255,
    ensures
        gravity_law(s, st_gravity(s, soft), soft),
{
    reveal(st_gravity);
    let g = frame_gravity(s, soft);
    lemma_tick_conserves_gravity(s.gravity, g);
    let s1 = GameState { gravity: s.gravity.after_tick(g), ..s };
    let r = s.gravity.tick_rows(g);
    lemma_fall_rows_model(s1, r, soft);
    let m = rows_to_landing(s);
    let f = if r < m {
        r
    } else {
        m
    };
    lemma_drop_row_range(s.board, s.active, s.active.y as int);
    if soft {
        s.scoring.lemma_after_drop_points(f, 0);
    }
    assert(gravity_table(clamp_level(s.scoring.spec_effective_level())) <= 2_409_332);
}

/// The events that only a hold, a rotation, a hard drop or a lock report.
pub open spec fn action_events(e: FrameEvents) -> (Option<LockEvent>, bool, bool, bool) {
    (e.locked, e.hold_performed, e.rotated, e.hard_dropped)
}

/// A lock delay with a full timer and at most `k` resets used.
pub open spec fn full_timer(l: LockDelay, k: int) -> bool {
    l.spec_timer() == LOCK_DELAY_FRAMES && l.spec_reset_count() <= k
}

/// Falling keeps the phase, the hold slot and the action events, and keeps
/// a full lock timer full without using a reset.
proof fn lemma_fall_rows_quiet(s: GameState, n: int, soft: bool, k: int)
    ensures
        st_fall_rows(s, n, soft).phase == s.phase,
        st_fall_rows(s, n, soft).hold == s.hold,
        action_events(st_fall_rows(s, n, soft).events) == action_events(s.events),
        full_timer(s.lock_delay, k) ==> full_timer(st_fall_rows(s, n, soft).lock_delay, k),
    decreases n,
{
    if n > 0 {
        let fallen = s.active.moved_to(s.active.x as int, s.active.y - 1);
        if fits_in(s.board, fallen) {
            lemma_full_timer(s.lock_delay, false, fallen.y, 0);
            lemma_fall_rows_quiet(
                GameState {
                    active: fallen,
                    last_rotation: false,
                    lock_delay: s.lock_delay.after_fall(fallen.y),
                    scoring: if soft {
                        s.scoring.after_drop_points(1)
                    } else {
                        s.scoring
                    },
                    events: if soft {
                        FrameEvents { soft_drop_rows: (s.events.soft_drop_rows + 1) as u8, ..s.events }
                    } else {
                        s.events
                    },
                    ..s
                },
                n - 1,
                soft,
                k,
            );
        }
    }
}

/// Sideways movement, gravity and the end-of-frame lock check, starting
/// with a full lock timer and no reset used, keep the phase, the hold slot
/// and the action events: at most one move uses at most one reset, so the
/// timer stays full and nothing locks.
proof fn lemma_quiet_frame_steps(s: GameState, b: Buttons, p: Buttons, soft: bool)
    requires
        full_timer(s.lock_delay, 0),
    ensures
        st_settle(st_gravity(st_horizontal(s, b, p), soft)).phase == s.phase,
        st_settle(st_gravity(st_horizontal(s, b, p), soft)).hold == s.hold,
        action_events(st_settle(st_gravity(st_horizontal(s, b, p), soft)).events) == action_events(s.events),
{
    reveal(st_horizontal);
    reveal(st_shift);
    reveal(st_gravity);
    reveal(st_settle);
    let d = resolved_direction(s.das_dir, b, p);
    let sa = GameState { das_dir: d, das_timer: DAS_FRAMES, ..s };
    let sb = GameState { das_timer: ARR_FRAMES, ..s };
    let ma = sa.active.moved_to(sa.active.x + d, sa.active.y as int);
    lemma_full_timer(s.lock_delay, grounded_in(s.board, ma), 0, 0);
    let mb = sb.active.moved_to(sb.active.x + d, sb.active.y as int);
    lemma_full_timer(s.lock_delay, grounded_in(s.board, mb), 0, 0);
    let u = st_horizontal(s, b, p);
    assert(full_timer(u.lock_delay, 1));
    let g = frame_gravity(u, soft);
    lemma_fall_rows_quiet(GameState { gravity: u.gravity.after_tick(g), ..u }, u.gravity.tick_rows(g), soft, 1);
    let v = st_gravity(u, soft);
    lemma_full_timer(v.lock_delay, grounded_in(v.board, v.active), 0, 0);
}

/// The first update of a new game fires no press edge, whatever buttons are
/// held: no pause, hold, rotation or hard drop happens, nothing locks and
/// the game keeps running. (A held left or right still moves, as a fresh
/// press.)
pub proof fn lemma_first_update(seed: u32, start_level: u32, b: Buttons)
    ensures
        st_update(st_new(seed, start_level), b).phase == Phase::Playing,
        st_update(st_new(seed, start_level), b).hold == None::<Tetromino>,
        st_update(st_new(seed, start_level), b).events.locked == None::<LockEvent>,
        !st_update(st_new(seed, start_level), b).events.hold_performed,
        !st_update(st_new(seed, start_level), b).events.rotated,
        !st_update(st_new(seed, start_level), b).events.hard_dropped,
{
    reveal(st_update);
    reveal(st_play);
    reveal(st_spawn);
    let s = st_new(seed, start_level);
    let bag = shuffled_bag(seed_state(seed));
    lemma_spawn_fits_empty(bag.0[0]);
    let p = ActivePiece::spec_spawn(bag.0[0]);
    lemma_full_timer(s.lock_delay, false, 0, p.moved_to(p.x as int, p.y - 1).y);
    lemma_full_timer(s.lock_delay, false, 0, p.y);
    assert(s.phase == Phase::Playing && s.first_update && s.hold is None && full_timer(s.lock_delay, 0));
    let s1 = GameState { first_update: false, prev_buttons: b, events: FrameEvents::none(), ..s };
    lemma_quiet_frame_steps(s1, b, b, b.down);
}

/// One held frame of auto-shift: the timer counts down, and when it reaches
/// zero the piece tries to move and the timer restarts at ARR_FRAMES.
/// Returns the new timer and whether a move is tried.
pub open spec fn das_next(timer: u8) -> (u8, bool) {
    let t: u8 = if timer == 0 {
        0
    } else {
        (timer - 1) as u8
    };
    if t == 0 {
        (ARR_FRAMES, true)
    } else {
        (t, false)
    }
}

/// The auto-shift timer `j` frames after the press frame, the direction
/// held throughout.
pub open spec fn das_after(j: nat) -> u8
    decreases j,
{
    if j == 0 {
        DAS_FRAMES
    } else {
        das_next(das_after((j - 1) as nat)).0
    }
}

/// Sideways movement follows the auto-shift timer: a new direction moves
/// at once and starts the timer at DAS_FRAMES; a held direction moves when
/// the timer runs out, then every ARR_FRAMES frames.
pub proof fn lemma_horizontal_follows_das(s: GameState, b: Buttons, p: Buttons)
    ensures
        ({
            let d = resolved_direction(s.das_dir, b, p);
            st_horizontal(s, b, p) == (if d != s.das_dir {
                if d != 0 {
                    st_shift(GameState { das_dir: d, das_timer: DAS_FRAMES, ..s }, d as int)
                } else {
                    GameState { das_dir: d, das_timer: DAS_FRAMES, ..s }
                }
            } else if d != 0 {
                if das_next(s.das_timer).1 {
                    st_shift(GameState { das_timer: ARR_FRAMES, ..s }, d as int)
                } else {
                    GameState { das_timer: das_next(s.das_timer).0, ..s }
                }
            } else {
                s
            })
        }),
{
    reveal(st_horizontal);
}

/// With a direction held from its press frame (frame 1), moves are tried on
/// frames 1, 11, 13, 15, ...: on frame `j + 1` after the press frame exactly
/// when `j >= 10` and `j - 10` is even.
pub proof fn lemma_das_repeats(j: nat)
    requires
        j >= 1,
    ensures
        das_next(das_after((j - 1) as nat)).1 == (j >= 10 && (j - 10) % 2 == 0),
        das_after(j) == (if j < 10 {
            (10 - j) as u8
        } else if (j - 10) % 2 == 0 {
            2u8
        } else {
            1u8
        }),
    decreases j,
{
    if j > 1 {
        lemma_das_repeats((j - 1) as nat);
    }
}

/// The whole game state.
#[derive(Debug, Clone, Copy)]
pub struct Game {
    board: Board,
    queue: PieceQueue,
    active: ActivePiece,
    hold: Option<Tetromino>,
    hold_used: bool,
    lock_delay: LockDelay,
    gravity: GravityAccumulator,
    scoring: Scoring,
    das: Das,
    prev_buttons: Buttons,
    first_update: bool,
    last_action_was_rotation: bool,
    last_kick: u8,
    phase: Phase,
    events: FrameEvents,
}

impl View for Game {
    type V = GameState;

    closed spec fn view(&self) -> GameState {
        GameState {
            board: self.board@,
            queue: self.queue@,
            rng: self.queue.rng_state(),
            active: self.active,
            hold: self.hold,
            hold_used: self.hold_used,
            lock_delay: self.lock_delay,
            gravity: self.gravity,
            scoring: self.scoring,
            das_dir: self.das.dir,
            das_timer: self.das.timer,
            prev_buttons: self.prev_buttons,
            first_update: self.first_update,
            last_rotation: self.last_action_was_rotation,
            last_kick: self.last_kick,
            phase: self.phase,
            events: self.events,
        }
    }
}

impl Game {
    /// The game is consistent (see [`game_inv`]).
    pub closed spec fn wf(&self) -> bool {
        self.queue.wf() && game_inv(self@)
    }

    /// A consistent game keeps the game invariant: outside game over the
    /// active piece fits the field.
    pub proof fn lemma_wf(&self)
        requires
            self.wf(),
        ensures
            game_inv(self@),
    {
    }

    /// Spawns `kind`: block out ends the game; otherwise the piece drops one
    /// row if it can, and the per-piece state is reset.
    fn spawn(&mut self, kind: Tetromino)
        requires
            old(self).queue.wf(),
            base_inv(old(self)@),
        ensures
            final(self).queue == old(self).queue,
            final(self).board == old(self).board,
            final(self).scoring == old(self).scoring,
            final(self)@ == st_spawn(old(self)@, kind),
            game_inv(final(self)@),
            final(self)@.events.soft_drop_rows == old(self)@.events.soft_drop_rows,
    {
        proof {
            reveal(st_spawn);
        }
        let piece = ActivePiece::spawn(kind);
        proof {
            piece.lemma_cells_in_range();
        }
        if !self.board.fits(&piece) {
            self.phase = Phase::GameOver;
            self.events.topped_out = true;
            return;
        }
        let piece = match try_fall(&self.board, &piece) {
            Some(p) => p,
            None => piece,
        };
        self.active = piece;
        self.gravity.reset();
        self.lock_delay = LockDelay::new(piece.y);
        self.last_action_was_rotation = false;
        self.last_kick = 0;
    }

    /// Locks the active piece: writes it into the field; lock out ends the
    /// game; otherwise T-Spin detection (on the field before the clear), line
    /// clear, perfect-clear check, scoring, hold release and the next spawn.
    #[verifier::rlimit(40)]
    fn lock_active(&mut self)
        requires
            old(self).queue.wf(),
            base_inv(old(self)@),
            fits_in(old(self)@.board, old(self)@.active),
            lock_fits(old(self)@),
        ensures
            final(self)@ == st_lock(old(self)@),
            locks_out(old(self)@.active) ==> final(self)@ == (GameState {
                board: with_piece(old(self)@.board, old(self)@.active),
                phase: Phase::GameOver,
                events: FrameEvents { topped_out: true, ..old(self)@.events },
                ..old(self)@
            }),
            !locks_out(old(self)@.active) ==> lock_scoring_law(old(self)@, final(self)@),
            scoring_step(old(self)@.scoring, final(self)@.scoring, lock_points_bound(old(self)@.scoring.spec_combo() as int), 40),
            final(self)@.scoring.spec_combo() <= old(self)@.scoring.spec_combo() + 1,
            final(self).queue.wf(),
            game_inv(final(self)@),
            final(self)@.events.soft_drop_rows == old(self)@.events.soft_drop_rows,
    {
        proof {
            let s0 = self@;
            let placed = with_piece(s0.board, s0.active);
            if locks_out(s0.active) {
                lemma_lock_out(s0);
            } else {
                lemma_full_row_count_bounds(placed);
                let e = lock_event(s0);
                s0.scoring.lemma_lock_points_bound(e.lines_cleared, e.tspin, e.perfect_clear);
                lemma_lock_scores(s0);
            }
        }
        proof {
            reveal(st_lock);
        }
        let piece = self.active;
        let combo_now = self.scoring.combo();
        proof {
            lemma_fits_in_bounds(self@.board, piece);
        }
        self.board.place(&piece);
        let c = piece.cells();
        if c[0].1 >= 20 && c[1].1 >= 20 && c[2].1 >= 20 && c[3].1 >= 20 {
            self.phase = Phase::GameOver;
            self.events.topped_out = true;
            return;
        }
        proof {
            if locks_out(piece) {
                assert(piece.cell_y(0) >= 20 && piece.cell_y(1) >= 20);
                assert(piece.cell_y(2) >= 20 && piece.cell_y(3) >= 20);
            }
        }
        let ghost placed = self.board@;
        let tspin = detect_tspin(&self.board, &piece, self.last_action_was_rotation, self.last_kick);
        let lines = self.board.clear_full_lines();
        proof {
            lemma_full_row_count_bounds(placed);
        }
        let perfect_clear = lines > 0 && self.board.is_empty();
        let level_before = self.scoring.level();
        let b2b_applied = self.scoring.b2b_applies(lines, tspin);
        proof {
            self.scoring.lemma_lock_points_bound(lines, tspin, perfect_clear);
        }
        let points_awarded = self.scoring.on_lock(lines, tspin, perfect_clear);
        assert(scoring_step(old(self).scoring, self.scoring, lock_points_bound(old(self)@.scoring.spec_combo() as int), 40));
        self.events.locked = Some(
            LockEvent {
                lines_cleared: lines,
                tspin,
                b2b_applied,
                combo: self.scoring.combo(),
                perfect_clear,
                points_awarded,
                level_up: self.scoring.level() > level_before,
            },
        );
        self.hold_used = false;
        proof {
            self.queue.lemma_wf_len();
        }
        let next = self.queue.pop();
        proof {
            self.queue.lemma_wf_len();
            let s = old(self)@;
            let placed0 = with_piece(s.board, piece);
            assert(placed == placed0);
            assert(!locks_out(piece));
            let tspin0 = tspin_of(placed0, piece, s.last_rotation, s.last_kick);
            assert(tspin == tspin0);
            let lines0 = full_row_count(placed0) as u8;
            assert(lines == lines0);
            let pc0 = lines0 > 0 && no_blocks(cleared_rows(placed0));
            assert(perfect_clear == pc0);
            let scoring0 = s.scoring.after_lock(lines0, tspin0, pc0);
            assert(self.scoring == scoring0);
            assert(self.events.locked == Some(lock_event(s)));
            let refill = refilled(s.queue.drop_first(), s.rng);
            assert(self@.queue == refill.0);
            assert(self@.rng == refill.1);
            assert(next == s.queue[0]);
            let s2 = st_locked(s);
            assert(self@.board == s2.board);
            assert(self@.events == s2.events);
            assert(self@ == s2);
        }
        self.spawn(next);
    }

    /// Hold: the active kind goes to the hold slot and the held kind (or the
    /// next queued one when the slot was empty) spawns.
    fn do_hold(&mut self)
        requires
            old(self).queue.wf(),
            base_inv(old(self)@),
        ensures
            final(self)@ == st_hold(old(self)@),
            final(self).queue.wf(),
            game_inv(final(self)@),
            final(self).scoring == old(self).scoring,
            final(self)@.events.soft_drop_rows == old(self)@.events.soft_drop_rows,
    {
        proof {
            reveal(st_hold);
        }
        let stored = self.hold;
        self.hold = Some(self.active.kind);
        self.hold_used = true;
        self.events.hold_performed = true;
        let next = match stored {
            Some(kind) => kind,
            None => {
                proof {
                    self.queue.lemma_wf_len();
                }
                let kind = self.queue.pop();
                proof {
                    self.queue.lemma_wf_len();
                }
                kind
            },
        };
        self.spawn(next);
    }

    /// Moves the active piece straight down to its landing row and scores
    /// the hard-drop points.
    #[verifier::rlimit(80)]
    fn drop_to_landing(&mut self)
        requires
            game_inv(old(self)@),
            old(self)@.phase != Phase::GameOver,
            old(self)@.scoring.spec_score() + 2 * (if hard_drop_cells(old(self)@) < 20 {
                hard_drop_cells(old(self)@)
            } else {
                20
            }) <= u32::MAX,
        ensures
            final(self)@ == st_drop_to_landing(old(self)@),
            final(self).queue == old(self).queue,
            fits_in(final(self)@.board, final(self)@.active),
            final(self)@.scoring.spec_score() <= old(self)@.scoring.spec_score() + 40,
            final(self)@.scoring.spec_score() >= old(self)@.scoring.spec_score(),
            final(self)@.scoring.spec_combo() == old(self)@.scoring.spec_combo(),
            final(self)@.scoring.spec_total_lines() == old(self)@.scoring.spec_total_lines(),
            final(self)@.scoring.spec_start_level() == old(self)@.scoring.spec_start_level(),
            final(self)@.events.soft_drop_rows == old(self)@.events.soft_drop_rows,
    {
        let ghost s = self@;
        let ghost g = drop_row(s.board, s.active, s.active.y as int);
        proof {
            lemma_landing_fits(s);
        }
        self.events.hard_dropped = true;
        let target = ghost(&self.board, &self.active);
        assert(target.y == g && 0 <= s.active.y - g);
        let cells = (self.active.y - target.y) as u32;
        assert(cells == hard_drop_cells(s));
        self.scoring.add_hard_drop_cells(cells);
        if cells > 0 {
            self.last_action_was_rotation = false;
        }
        self.active = target;
    }

    /// Hard drop: straight down to the landing row, two points per cell (at
    /// most 40), then an immediate lock regardless of the lock delay.
    fn hard_drop(&mut self)
        requires
            old(self).queue.wf(),
            game_inv(old(self)@),
            old(self)@.phase != Phase::GameOver,
            hard_drop_fits(old(self)@),
        ensures
            final(self)@ == st_hard_drop(old(self)@),
            hard_drop_law(old(self)@),
            final(self).queue.wf(),
            game_inv(final(self)@),
            scoring_step(
                old(self)@.scoring,
                final(self)@.scoring,
                40 + lock_points_bound(old(self)@.scoring.spec_combo() as int),
                40,
            ),
            final(self)@.scoring.spec_combo() <= old(self)@.scoring.spec_combo() + 1,
            final(self)@.events.soft_drop_rows == old(self)@.events.soft_drop_rows,
    {
        proof {
            lemma_hard_drop_lands_on_ghost(old(self)@);
        }
        proof {
            reveal(st_hard_drop);
        }
        self.drop_to_landing();
        self.lock_active();
    }

    /// Rotation: a successful rotation sets the rotation flag and kick and may
    /// reset the lock delay; a blocked rotation or O changes nothing.
    #[verifier::rlimit(30)]
    fn rotate(&mut self, dir: RotateDir)
        requires
            game_inv(old(self)@),
            old(self)@.phase != Phase::GameOver,
        ensures
            final(self)@ == st_rotate(old(self)@, dir),
            final(self).queue == old(self).queue,
            game_inv(final(self)@),
            final(self)@.scoring == old(self)@.scoring,
            final(self)@.phase == old(self)@.phase,
            final(self)@.events.soft_drop_rows == old(self)@.events.soft_drop_rows,
    {
        proof {
            reveal(st_rotate);
        }
        proof {
            lemma_fits_in_bounds(self@.board, self.active);
            lemma_rotation_in_range(self@.board, self.active, dir, 0);
        }
        match try_rotate(&self.board, &self.active, dir) {
            RotateOutcome::Rotated { piece, kick } => {
                proof {
                    lemma_rotated_fits(self@.board, self.active, dir, 0);
                    lemma_fits_in_bounds(self@.board, piece);
                }
                self.active = piece;
                self.last_action_was_rotation = true;
                self.last_kick = kick;
                self.events.rotated = true;
                let grounded = is_grounded(&self.board, &piece);
                self.lock_delay.notify_move(grounded);
            },
            RotateOutcome::Blocked | RotateOutcome::IgnoredO => {},
        }
    }

    /// One-cell sideways move. A successful move clears the rotation flag and
    /// may reset the lock delay; a blocked move changes nothing.
    fn shift(&mut self, dx: i8)
        requires
            game_inv(old(self)@),
            old(self)@.phase != Phase::GameOver,
            dx == -1 || dx == 1,
        ensures
            final(self)@ == st_shift(old(self)@, dx as int),
            final(self).queue == old(self).queue,
            game_inv(final(self)@),
            final(self)@.scoring == old(self)@.scoring,
            final(self)@.phase == old(self)@.phase,
            final(self)@.events.soft_drop_rows == old(self)@.events.soft_drop_rows,
    {
        proof {
            reveal(st_shift);
        }
        proof {
            lemma_fits_in_bounds(self@.board, self.active);
            let moved = self.active.moved_to(self.active.x + dx, self.active.y as int);
            moved.lemma_cells_in_range();
        }
        match try_shift(&self.board, &self.active, dx) {
            Some(moved) => {
                proof {
                    lemma_fits_in_bounds(self@.board, moved);
                }
                self.active = moved;
                self.last_action_was_rotation = false;
                self.events.shifted = true;
                let grounded = is_grounded(&self.board, &moved);
                self.lock_delay.notify_move(grounded);
            },
            None => {},
        }
    }

    /// Direction of this frame: with both held the later press wins; a
    /// simultaneous press keeps the current direction.
    fn resolve_direction(&self, buttons: Buttons, prev: Buttons) -> (r: i8)
        ensures
            r == resolved_direction(self.das.dir, buttons, prev),
            r == direction_table(self.das.dir, buttons, prev),
    {
        proof {
            lemma_resolved_direction(self.das.dir, buttons, prev);
        }
        if !buttons.left && !buttons.right {
            0
        } else if buttons.left && !buttons.right {
            -1
        } else if !buttons.left && buttons.right {
            1
        } else {
            let left_edge = !prev.left;
            let right_edge = !prev.right;
            if left_edge && !right_edge {
                -1
            } else if right_edge && !left_edge {
                1
            } else {
                self.das.dir
            }
        }
    }

    /// Sideways movement with DAS/ARR: a cell on the press frame, the next
    /// after DAS_FRAMES, then one every ARR_FRAMES; a blocked move still
    /// advances the timer (wall charge).
    fn horizontal_move(&mut self, buttons: Buttons, prev: Buttons)
        requires
            game_inv(old(self)@),
            old(self)@.phase != Phase::GameOver,
        ensures
            final(self)@ == st_horizontal(old(self)@, buttons, prev),
            final(self).queue == old(self).queue,
            game_inv(final(self)@),
            final(self)@.scoring == old(self)@.scoring,
            final(self)@.phase == old(self)@.phase,
            final(self)@.events.soft_drop_rows == old(self)@.events.soft_drop_rows,
    {
        proof {
            reveal(st_horizontal);
        }
        let dir = self.resolve_direction(buttons, prev);
        if dir != self.das.dir {
            self.das = Das { dir, timer: DAS_FRAMES };
            if dir != 0 {
                self.shift(dir);
            }
        } else if dir != 0 {
            self.das.timer = if self.das.timer > 0 {
                self.das.timer - 1
            } else {
                0
            };
            if self.das.timer == 0 {
                self.das.timer = ARR_FRAMES;
                self.shift(dir);
            }
        }
    }

    /// Gravity and soft drop: the accumulator yields the rows to fall this
    /// frame; the piece falls row by row until it touches down, which
    /// clears the accumulator. With soft drop each row scores one point.
    #[verifier::rlimit(50)]
    fn apply_gravity(&mut self, soft: bool)
        requires
            game_inv(old(self)@),
            old(self)@.phase != Phase::GameOver,
            old(self)@.events.soft_drop_rows == 0,
            soft ==> old(self)@.scoring.spec_score() + gravity_rows(old(self)@, soft) <= u32::MAX,
        ensures
            final(self)@ == st_gravity(old(self)@, soft),
            gravity_law(old(self)@, final(self)@, soft),
            final(self).queue == old(self).queue,
            game_inv(final(self)@),
            final(self)@.phase != Phase::GameOver,
            old(self)@.scoring.spec_score() <= final(self)@.scoring.spec_score() <= old(self)@.scoring.spec_score() + 42,
            final(self)@.scoring.spec_combo() == old(self)@.scoring.spec_combo(),
            final(self)@.scoring.spec_total_lines() == old(self)@.scoring.spec_total_lines(),
            final(self)@.scoring.spec_start_level() == old(self)@.scoring.spec_start_level(),
    {
        proof {
            let s0 = self@;
            lemma_fits_in_bounds(s0.board, s0.active);
            lemma_drop_row_range(s0.board, s0.active, s0.active.y as int);
            lemma_gravity_model(s0, soft);
        }
        proof {
            reveal(st_gravity);
        }
        let level = self.scoring.effective_level();
        let mut gravity = gravity_q16(level);
        if soft {
            gravity = gravity * SOFT_DROP_FACTOR;
        }
        assert(gravity == frame_gravity(old(self)@, soft));
        let rows = self.gravity.tick(gravity);
        let ghost s_tick = self@;
        let ghost y0 = self.active.y as int;
        proof {
            lemma_fits_in_bounds(s_tick.board, s_tick.active);
        }
        let mut i: u32 = 0;
        let mut landed = false;
        while i < rows && !landed
            invariant
                i <= rows,
                s_tick == (GameState { gravity: old(self)@.gravity.after_tick(gravity), ..old(self)@ }),
                rows == old(self)@.gravity.tick_rows(gravity),
                landed ==> self@ == st_fall_rows(s_tick, rows as int, soft),
                !landed ==> st_fall_rows(self@, (rows - i) as int, soft) == st_fall_rows(s_tick, rows as int, soft),
                game_inv(self@),
                self@.phase != Phase::GameOver,
                self.queue == old(self).queue,
                -3 <= self.active.y <= y0 <= 39,
                soft ==> self@.events.soft_drop_rows == y0 - self.active.y && self@.scoring.spec_score()
                    == s_tick.scoring.spec_score() + (y0 - self.active.y),
                !soft ==> self@.scoring == s_tick.scoring,
                s_tick.scoring.spec_score() == old(self)@.scoring.spec_score(),
                self@.scoring.spec_combo() == s_tick.scoring.spec_combo(),
                self@.scoring.spec_total_lines() == s_tick.scoring.spec_total_lines(),
                self@.scoring.spec_start_level() == s_tick.scoring.spec_start_level(),
                !landed && soft ==> self@.scoring.spec_score() + (if rows - i < rows_to_landing(self@) {
                    rows - i
                } else {
                    rows_to_landing(self@)
                }) <= u32::MAX,
            decreases rows - i + (if landed {
                0int
            } else {
                1int
            }),
        {
            proof {
                lemma_fits_in_bounds(self@.board, self.active);
            }
            match try_fall(&self.board, &self.active) {
                None => {
                    self.gravity.reset();
                    landed = true;
                },
                Some(fallen) => {
                    proof {
                        lemma_fits_in_bounds(self@.board, fallen);
                        lemma_fall_one_row(self@, fallen);
                    }
                    self.active = fallen;
                    self.last_action_was_rotation = false;
                    self.lock_delay.notify_fall(fallen.y);
                    if soft {
                        self.scoring.add_soft_drop_cells(1);
                        self.events.soft_drop_rows = self.events.soft_drop_rows + 1;
                    }
                    i = i + 1;
                },
            }
        }
    }

    /// End of frame: grounded check (touchdown clears the accumulator), lock
    /// delay update, and the lock when it is due.
    fn settle(&mut self)
        requires
            old(self).queue.wf(),
            game_inv(old(self)@),
            old(self)@.phase != Phase::GameOver,
            settle_fits(old(self)@),
        ensures
            final(self)@ == st_settle(old(self)@),
            final(self).queue.wf(),
            game_inv(final(self)@),
            scoring_step(old(self)@.scoring, final(self)@.scoring, lock_points_bound(old(self)@.scoring.spec_combo() as int), 40),
    {
        let ghost s = self@;
        let ghost grounded0 = grounded_in(s.board, s.active);
        let ghost s1 = if grounded0 {
            GameState { gravity: GravityAccumulator::spec_new(), ..s }
        } else {
            s
        };
        let ghost s2 = GameState { lock_delay: s1.lock_delay.after_frame(grounded0), ..s1 };
        assert(st_settle(s) == (if s1.lock_delay.frame_locks(grounded0) {
            st_lock(s2)
        } else {
            s2
        })) by {
            reveal(st_settle);
        }
        assert(self.active.cells_in_range() && self.active.y > -128) by {
            lemma_fits_in_bounds(self@.board, self.active);
        }
        let grounded = is_grounded(&self.board, &self.active);
        if grounded {
            self.gravity.reset();
        }
        let locks = self.lock_delay.frame_update(grounded);
        assert(self@ == s2);
        assert(lock_event(s2) == lock_event(s));
        if locks {
            self.lock_active();
        }
    }

    /// The actions of a playing frame: hold / hard drop, rotation, sideways
    /// movement, gravity, lock delay.
    fn play(&mut self, buttons: Buttons, prev: Buttons)
        requires
            old(self).queue.wf(),
            game_inv(old(self)@),
            old(self)@.phase == Phase::Playing,
            old(self)@.events.soft_drop_rows == 0,
            frame_headroom(old(self)@) || play_fits(old(self)@, buttons, prev),
        ensures
            final(self)@ == st_play(old(self)@, buttons, prev),
            final(self).queue.wf(),
            game_inv(final(self)@),
            old(self)@.scoring.spec_score() <= final(self)@.scoring.spec_score(),
            old(self)@.scoring.spec_total_lines() <= final(self)@.scoring.spec_total_lines(),
            final(self)@.scoring.spec_start_level() == old(self)@.scoring.spec_start_level(),
    {
        let ghost s = self@;
        let ghost roomy = frame_headroom(s);
        if buttons.hold && !prev.hold && !self.hold_used {
            self.do_hold();
        } else if buttons.up && !prev.up {
            proof {
                if roomy {
                    lemma_hard_drop_headroom_fits(s);
                }
            }
            self.hard_drop();
        }
        let ghost s2 = self@;
        if matches!(self.phase, Phase::GameOver) {
            assert(st_play(s, buttons, prev) == s2) by {
                reveal(st_play);
            }
            return;
        }
        if buttons.rotate_cw && !prev.rotate_cw {
            self.rotate(RotateDir::Cw);
        } else if buttons.rotate_ccw && !prev.rotate_ccw {
            self.rotate(RotateDir::Ccw);
        }
        let ghost s3 = self@;
        self.horizontal_move(buttons, prev);
        let ghost s4 = self@;
        proof {
            lemma_rows_to_landing_bound(s4);
        }
        self.apply_gravity(buttons.down);
        let ghost s5 = self@;
        proof {
            if roomy {
                lemma_lock_headroom_fits(s5);
            }
        }
        self.settle();
        assert(st_play(s, buttons, prev) == st_settle(st_gravity(st_horizontal(s3, buttons, prev), buttons.down))) by {
            reveal(st_play);
        }
    }

    /// Advances one frame (call once per frame). Events are cleared first;
    /// after game over nothing else happens. The first update treats its own
    /// buttons as the previous frame's, so buttons held over from the title
    /// screen do not fire. A START press toggles pause and ends the frame;
    /// while paused nothing advances. Otherwise: hold / hard drop (hold
    /// first), rotation (clockwise first), sideways movement (DAS/ARR),
    /// gravity and soft drop, then the lock delay and the lock.
    ///
    /// The frame must keep its counters representable ([`frame_fits`]), or
    /// the counters must have the margin that [`Game::can_update`] tests.
    pub fn update(&mut self, buttons: Buttons)
        requires
            old(self).wf(),
            frame_fits(old(self)@, buttons) || (plays_frame(old(self)@, buttons) ==> frame_headroom(old(self)@)),
        ensures
            final(self).wf(),
            final(self)@ == st_update(old(self)@, buttons),
            old(self)@.scoring.spec_score() <= final(self)@.scoring.spec_score(),
            old(self)@.scoring.spec_total_lines() <= final(self)@.scoring.spec_total_lines(),
            final(self)@.scoring.spec_start_level() == old(self)@.scoring.spec_start_level(),
    {
        proof {
            reveal(st_update);
        }
        self.events = FrameEvents::default();
        if matches!(self.phase, Phase::GameOver) {
            return;
        }
        let prev = if self.first_update {
            self.first_update = false;
            buttons
        } else {
            self.prev_buttons
        };
        self.prev_buttons = buttons;
        if buttons.start && !prev.start {
            self.phase = match self.phase {
                Phase::Paused => Phase::Playing,
                Phase::Playing | Phase::GameOver => Phase::Paused,
            };
            return;
        }
        if matches!(self.phase, Phase::Paused) {
            return;
        }
        self.play(buttons, prev);
    }

    /// Starts a game from a seed and a start level (1 to 15): deals the
    /// first bag and spawns its first piece.
    ///
    /// The first `update` takes its buttons as the previous frame's, so START,
    /// up, hold and rotation held over from the title screen do not fire and
    /// must be pressed again; held left / right / down act from the first
    /// frame.
    pub fn new(seed: u32, start_level: u32) -> (r: Game)
        ensures
            r.wf(),
            r@ == st_new(seed, start_level),
            r@.phase == Phase::Playing,
            r@.scoring == Scoring::spec_new(start_level),
            r@.hold == None::<Tetromino>,
            r@.events == FrameEvents::none(),
    {
        let mut queue = PieceQueue::new(seed);
        proof {
            queue.lemma_wf_len();
        }
        let first = queue.pop();
        proof {
            queue.lemma_wf_len();
        }
        let mut game = Game {
            board: Board::new(),
            queue,
            active: ActivePiece::spawn(first),
            hold: None,
            hold_used: false,
            lock_delay: LockDelay::new(0),
            gravity: GravityAccumulator::new(),
            scoring: Scoring::new(start_level),
            das: Das { dir: 0, timer: DAS_FRAMES },
            prev_buttons: Buttons::default(),
            first_update: true,
            last_action_was_rotation: false,
            last_kick: 0,
            phase: Phase::Playing,
            events: FrameEvents::default(),
        };
        proof {
            lemma_spawn_fits_empty(first);
        }
        game.spawn(first);
        proof {
            reveal(st_spawn);
        }
        game
    }

    /// The ghost piece (where the active piece would land); `None` after
    /// game over.
    pub fn ghost_piece(&self) -> (r: Option<ActivePiece>)
        requires
            self.wf(),
        ensures
            r == (if self@.phase == Phase::GameOver {
                None
            } else {
                Some(ghost_of(self@))
            }),
    {
        match self.phase {
            Phase::GameOver => None,
            Phase::Playing | Phase::Paused => {
                proof {
                    lemma_fits_in_bounds(self@.board, self.active);
                }
                Some(ghost(&self.board, &self.active))
            },
        }
    }

    /// The `i`-th next piece (`0..NEXT_COUNT`).
    pub fn next(&self, i: usize) -> (r: Tetromino)
        requires
            self.wf(),
            i < 5,
        ensures
            r == self@.queue[i as int],
    {
        self.queue.peek(i)
    }

    /// Overwrites one field cell (for setting up positions). A block may not
    /// be put on a cell of the active piece.
    pub fn set_cell(&mut self, x: i8, y: i8, cell: Option<Tetromino>)
        requires
            old(self).wf(),
            cell is Some && old(self)@.phase != Phase::GameOver ==> !old(self)@.active.covers(x as int, y as int),
        ensures
            final(self).wf(),
            final(self)@ == (GameState { board: with_cell(old(self)@.board, x as int, y as int, cell), ..old(self)@ }),
    {
        self.board.set(x, y, cell);
        proof {
            let s = old(self)@;
            if s.phase != Phase::GameOver {
                assert forall|i: int| 0 <= i < 4 implies !#[trigger] occupied_in(self@.board, s.active.cell_x(i), s.active.cell_y(i)) by {
                    assert(!occupied_in(s.board, s.active.cell_x(i), s.active.cell_y(i)));
                    if s.active.cell_x(i) == x && s.active.cell_y(i) == y && cell is Some {
                        assert(s.active.covers(x as int, y as int));
                    }
                }
            }
        }
    }

    /// Scores a lock directly, bypassing the field (for setting up scoring
    /// situations). Returns the points awarded.
    pub fn record_lock(&mut self, lines_cleared: u8, tspin: TSpin, perfect_clear: bool) -> (r: u32)
        requires
            old(self).wf(),
            old(self)@.scoring.can_lock(lines_cleared, tspin, perfect_clear),
        ensures
            final(self).wf(),
            r == old(self)@.scoring.lock_points(lines_cleared, tspin, perfect_clear),
            final(self)@ == (GameState { scoring: old(self)@.scoring.after_lock(lines_cleared, tspin, perfect_clear), ..old(self)@ }),
    {
        self.scoring.on_lock(lines_cleared, tspin, perfect_clear)
    }

    /// The locked blocks.
    pub fn board(&self) -> (r: &Board)
        ensures
            r@ == self@.board,
    {
        &self.board
    }

    /// The piece under control; `None` after game over.
    pub fn active_piece(&self) -> (r: Option<&ActivePiece>)
        ensures
            r is None <==> self@.phase == Phase::GameOver,
            r matches Some(p) ==> *p == self@.active,
    {
        match self.phase {
            Phase::GameOver => None,
            Phase::Playing | Phase::Paused => Some(&self.active),
        }
    }

    /// Held piece.
    pub fn hold_piece(&self) -> (r: Option<Tetromino>)
        ensures
            r == self@.hold,
    {
        self.hold
    }

    /// Current score.
    pub fn score(&self) -> (r: u32)
        ensures
            r == self@.scoring.spec_score(),
    {
        self.scoring.score()
    }

    /// Displayed level.
    pub fn level(&self) -> (r: u32)
        ensures
            r == self@.scoring.spec_level(),
    {
        self.scoring.level()
    }

    /// Lines cleared so far.
    pub fn total_lines(&self) -> (r: u32)
        ensures
            r == self@.scoring.spec_total_lines(),
    {
        self.scoring.total_lines()
    }

    /// Game phase.
    pub fn phase(&self) -> (r: Phase)
        ensures
            r == self@.phase,
    {
        self.phase
    }

    /// Events of the latest update (empty before the first update).
    pub fn events(&self) -> (r: &FrameEvents)
        ensures
            *r == self@.events,
    {
        &self.events
    }

    /// Combo counter; -1 means no combo.
    pub fn combo(&self) -> (r: i16)
        ensures
            r == self@.scoring.spec_combo(),
    {
        self.scoring.combo()
    }

    /// Whether the back-to-back chain is active.
    pub fn b2b(&self) -> (r: bool)
        ensures
            r == self@.scoring.spec_b2b(),
    {
        self.scoring.b2b()
    }

    /// Whether the counters can take one more frame without overflowing
    /// (see [`frame_headroom`]); false only far beyond any real game.
    pub fn has_frame_headroom(&self) -> (r: bool)
        ensures
            r == frame_headroom(self@),
    {
        let combo = self.scoring.combo() as i64;
        let score = self.scoring.score() as i64;
        let lines = self.scoring.total_lines() as i64;
        let start = self.scoring.start_level() as i64;
        let bound_now = 112000 + 1000 * (combo + 1);
        let bound_next = 112000 + 1000 * (combo + 2);
        combo + 2 < 32767 && score + bound_now + bound_next + 200 <= 0xFFFF_FFFF && lines + 80 <= 0xFFFF_FFFF
            && start + (lines + 80) / 10 <= 0xFFFF_FFFF
    }

    /// Whether `update(buttons)` may be called, by the quick test: a frame
    /// that plays needs the margin of [`frame_headroom`] in the counters; a
    /// paused, pausing, resuming or finished frame always may.
    pub fn can_update(&self, buttons: Buttons) -> (r: bool)
        ensures
            r == (plays_frame(self@, buttons) ==> frame_headroom(self@)),
    {
        let prev_start = if self.first_update {
            buttons.start
        } else {
            self.prev_buttons.start
        };
        let plays = matches!(self.phase, Phase::Playing) && !(buttons.start && !prev_start);
        !plays || self.has_frame_headroom()
    }

    /// Whether the last successful action was a rotation.
    pub fn last_action_was_rotation(&self) -> (r: bool)
        ensures
            r == self@.last_rotation,
    {
        self.last_action_was_rotation
    }
}

} // verus!
