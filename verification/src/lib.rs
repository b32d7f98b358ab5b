//! Game logic of a guideline-conforming falling-block puzzle.
use vstd::prelude::*;

pub mod piece;
pub mod active;
pub mod board;
pub mod rng;
pub mod bag;
pub mod input;
pub mod lock_delay;
pub mod physics;
pub mod tspin;
pub mod score;
pub mod srs;
pub mod game;
pub mod colour;
pub mod text;
pub mod screen;

pub use active::ActivePiece;
pub use bag::{PieceQueue, NEXT_COUNT};
pub use board::{Board, FIELD_HEIGHT, FIELD_WIDTH, VISIBLE_HEIGHT};
pub use game::{FrameEvents, Game, LockEvent, Phase};
pub use input::Buttons;
pub use lock_delay::LockDelay;
pub use physics::GravityAccumulator;
pub use piece::{Rotation, Tetromino};
pub use rng::Rng;
pub use score::Scoring;
pub use srs::{RotateDir, RotateOutcome};
pub use tspin::TSpin;

verus! {

/// Width of the board, in cells.
pub const BOARD_WIDTH: usize = 10;

/// Height of the visible part of the board, in cells.
pub const BOARD_HEIGHT: usize = 20;

} // verus!
