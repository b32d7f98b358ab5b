//! Long random playthroughs: many frames of deterministic pseudo-random
//! input, checking that nothing panics and that the invariants hold.

use retris_core::{Board, Buttons, FrameEvents, Game, Phase, Rng, Rotation, Tetromino, NEXT_COUNT};

const LEFT: usize = 0;
const RIGHT: usize = 1;
const DOWN: usize = 2;
const UP: usize = 3;
const CW: usize = 4;
const CCW: usize = 5;
const HOLD: usize = 6;
const START: usize = 7;

/// Random input shaped like real play: each button keeps a number of frames
/// it stays held, and presses start with a per-button bias.
struct InputGen {
    rng: Rng,
    held: [u32; 8],
}

impl InputGen {
    fn new(seed: u32) -> Self {
        Self { rng: Rng::new(seed), held: [0; 8] }
    }

    fn chance(&mut self, n: u32) -> bool {
        self.rng.bounded(n) == 0
    }

    fn press(&mut self, idx: usize, min: u32, spread: u32) {
        self.held[idx] = min + self.rng.bounded(spread + 1);
    }

    fn next_frame(&mut self, paused: bool) -> Buttons {
        for frames in &mut self.held {
            *frames = frames.saturating_sub(1);
        }
        if self.held[LEFT] == 0 && self.held[RIGHT] == 0 {
            if self.chance(10) {
                let idx = if self.chance(2) { LEFT } else { RIGHT };
                self.press(idx, 8, 50);
            }
        } else if self.chance(80) {
            let idx = if self.held[LEFT] == 0 { LEFT } else { RIGHT };
            self.press(idx, 4, 20);
        }
        if self.held[DOWN] == 0 && self.chance(14) {
            self.press(DOWN, 5, 40);
        }
        if self.held[UP] == 0 && self.chance(20) {
            self.press(UP, 1, 2);
        }
        if self.held[CW] == 0 && self.chance(9) {
            self.press(CW, 1, 3);
        }
        if self.held[CCW] == 0 && self.chance(13) {
            self.press(CCW, 1, 3);
        }
        if self.held[HOLD] == 0 && self.chance(40) {
            self.press(HOLD, 1, 2);
        }
        let start_chance = if paused { 8 } else { 700 };
        if self.held[START] == 0 && self.chance(start_chance) {
            self.press(START, 1, 2);
        }
        Buttons {
            left: self.held[LEFT] > 0,
            right: self.held[RIGHT] > 0,
            down: self.held[DOWN] > 0,
            up: self.held[UP] > 0,
            rotate_cw: self.held[CW] > 0,
            rotate_ccw: self.held[CCW] > 0,
            hold: self.held[HOLD] > 0,
            start: self.held[START] > 0,
        }
    }
}

fn check_invariants(game: &Game, start_level: u32, seed: u32, frame: u32) {
    assert_eq!(
        game.level(),
        start_level + game.total_lines() / 10,
        "level does not follow the fixed goal (seed={seed} frame={frame})"
    );
    for i in 0..NEXT_COUNT {
        let _ = game.next(i);
    }
    let _ = game.combo();
    let _ = game.b2b();
    match game.phase() {
        Phase::Playing | Phase::Paused => {
            let active = *game
                .active_piece()
                .unwrap_or_else(|| panic!("a piece is under control while playing (seed={seed} frame={frame})"));
            assert!(
                game.board().fits(&active),
                "the active piece overlaps or leaves the field (seed={seed} frame={frame}): {active:?}"
            );
            let ghost_piece = game
                .ghost_piece()
                .unwrap_or_else(|| panic!("there is a ghost while playing (seed={seed} frame={frame})"));
            assert!(
                game.board().fits(&ghost_piece),
                "the ghost overlaps or leaves the field (seed={seed} frame={frame}): {ghost_piece:?}"
            );
            assert!(
                ghost_piece.y <= active.y,
                "the ghost lies above the piece (seed={seed} frame={frame}): active={active:?} ghost={ghost_piece:?}"
            );
            assert_eq!(
                (ghost_piece.kind, ghost_piece.rot, ghost_piece.x),
                (active.kind, active.rot, active.x),
                "the ghost keeps kind, rotation and column (seed={seed} frame={frame})"
            );
        }
        Phase::GameOver => {
            assert_eq!(game.active_piece(), None, "a piece is left after game over (seed={seed} frame={frame})");
            assert_eq!(game.ghost_piece(), None, "a ghost is left after game over (seed={seed} frame={frame})");
        }
    }
}

const SEEDS: [u32; 12] = [
    1,
    2,
    42,
    0xDEAD_BEEF,
    0x1234_5678,
    0xFFFF_FFFF,
    7_777_777,
    0xCAFE_BABE,
    0x0BAD_F00D,
    424_242,
    0x8000_0000,
    0xA5A5_A5A5,
];

const FRAMES_PER_SEED: u32 = 30_000;

fn run_random_playthrough(seed: u32, start_level: u32, frames: u32) {
    let mut input = InputGen::new(seed ^ 0xA5A5_5A5A);
    let mut game_seed = seed;
    let mut game = Game::new(game_seed, start_level);
    let mut prev_score = 0u32;
    let mut prev_lines = 0u32;
    for frame in 0..frames {
        let paused = matches!(game.phase(), Phase::Paused);
        game.update(input.next_frame(paused));
        assert!(
            game.score() >= prev_score,
            "the score went down (seed={game_seed} frame={frame}): {prev_score} -> {}",
            game.score()
        );
        assert!(
            game.total_lines() >= prev_lines,
            "the line count went down (seed={game_seed} frame={frame}): {prev_lines} -> {}",
            game.total_lines()
        );
        prev_score = game.score();
        prev_lines = game.total_lines();
        if frame % 240 == 0 {
            check_invariants(&game, start_level, game_seed, frame);
        }
        if matches!(game.phase(), Phase::GameOver) {
            check_invariants(&game, start_level, game_seed, frame);
            game.update(input.next_frame(false));
            assert_eq!(*game.events(), FrameEvents::default(), "events after game over (seed={game_seed} frame={frame})");
            game_seed = game_seed.wrapping_mul(0x9E37_79B9).wrapping_add(1);
            game = Game::new(game_seed, start_level);
            prev_score = 0;
            prev_lines = 0;
        }
    }
    check_invariants(&game, start_level, game_seed, frames);
}

#[test]
fn random_playthrough_survives_across_seeds() {
    const START_LEVELS: [u32; 5] = [1, 4, 7, 11, 15];
    for (i, &seed) in SEEDS.iter().enumerate() {
        run_random_playthrough(seed, START_LEVELS[i % START_LEVELS.len()], FRAMES_PER_SEED);
    }
}

fn column_height(board: &Board, x: i8) -> i8 {
    (0i8..40).rev().find(|&y| board.get(x, y).is_some()).map_or(0, |y| y + 1)
}

/// Greedy evaluation of a field: cleared lines count for it; total height,
/// holes and bumpiness count against it.
fn evaluate(board: &Board, lines_cleared: i32) -> i32 {
    let mut aggregate = 0i32;
    let mut holes = 0i32;
    let mut bumpiness = 0i32;
    let mut prev_height: Option<i8> = None;
    for x in 0i8..10 {
        let height = column_height(board, x);
        aggregate += i32::from(height);
        for y in 0..height {
            if board.get(x, y).is_none() {
                holes += 1;
            }
        }
        if let Some(prev) = prev_height {
            bumpiness += i32::from((height - prev).abs());
        }
        prev_height = Some(height);
    }
    760 * lines_cleared - 510 * aggregate - 2000 * holes - 180 * bumpiness
}

fn cw_steps(from: Rotation, to: Rotation) -> u8 {
    let mut rot = from;
    for steps in 0..4 {
        if rot == to {
            return steps;
        }
        rot = rot.cw();
    }
    unreachable!("a rotation state cycles in four steps");
}

/// Steers the active piece to `(target_rot, target_x)` with taps, then hard
/// drops, until it locks or the game ends.
fn steer_piece(game: &mut Game, target_rot: Rotation, target_x: i8, move_first: bool) {
    for _ in 0..120 {
        let Some(piece) = game.active_piece().copied() else {
            return;
        };
        let need_rotate = piece.rot != target_rot;
        let rotate_now = need_rotate && !(move_first && piece.x != target_x);
        let mut press = Buttons::default();
        if rotate_now {
            if cw_steps(piece.rot, target_rot) == 3 {
                press.rotate_ccw = true;
            } else {
                press.rotate_cw = true;
            }
        } else if piece.x < target_x {
            press.right = true;
        } else if piece.x > target_x {
            press.left = true;
        } else {
            press.up = true;
        }
        game.update(press);
        if game.events().locked.is_some() || game.events().topped_out {
            return;
        }
        game.update(Buttons::default());
        if game.events().locked.is_some() || game.events().topped_out {
            return;
        }
    }
    game.update(Buttons::default());
    game.update(Buttons { up: true, ..Buttons::default() });
}

/// Tries every placement on a copy of the game and plays the best one.
fn play_one_piece_greedily(game: &mut Game) {
    let Some(active) = game.active_piece() else {
        return;
    };
    let rotations: &[Rotation] = if active.kind == Tetromino::O {
        &[Rotation::Spawn]
    } else {
        &[Rotation::Spawn, Rotation::Cw, Rotation::Flip, Rotation::Ccw]
    };
    let mut best_score = i32::MIN;
    let mut best = (active.rot, active.x, false);
    for &rot in rotations {
        for x in -2i8..=9 {
            for move_first in [false, true] {
                let mut sim = game.clone();
                let lines_before = sim.total_lines();
                steer_piece(&mut sim, rot, x, move_first);
                if !matches!(sim.phase(), Phase::Playing) {
                    continue;
                }
                let cleared = (sim.total_lines() - lines_before) as i32;
                let score = evaluate(sim.board(), cleared);
                if score > best_score {
                    best_score = score;
                    best = (rot, x, move_first);
                }
            }
        }
    }
    steer_piece(game, best.0, best.1, best.2);
}

#[test]
fn high_level_playthrough_reaches_beyond_level_20() {
    const SEED: u32 = 0x00C0_FFEE;
    const START_LEVEL: u32 = 15;
    let mut game = Game::new(SEED, START_LEVEL);
    game.update(Buttons::default());
    let mut pieces = 0u32;
    while game.level() < 21 {
        assert!(
            matches!(game.phase(), Phase::Playing),
            "the bot topped out before level 21: pieces={pieces} lines={}",
            game.total_lines()
        );
        assert!(pieces < 1_000, "level 21 not reached: pieces={pieces} lines={}", game.total_lines());
        play_one_piece_greedily(&mut game);
        pieces += 1;
        check_invariants(&game, START_LEVEL, SEED, pieces);
    }
    for _ in 0..80 {
        if !matches!(game.phase(), Phase::Playing) {
            break;
        }
        play_one_piece_greedily(&mut game);
        pieces += 1;
        check_invariants(&game, START_LEVEL, SEED, pieces);
    }
    let mut input = InputGen::new(SEED ^ 0x5EED_5EED);
    for frame in 0..3_000 {
        let paused = matches!(game.phase(), Phase::Paused);
        game.update(input.next_frame(paused));
        if frame % 200 == 0 {
            check_invariants(&game, START_LEVEL, SEED, frame);
        }
    }
    check_invariants(&game, START_LEVEL, SEED, 3_000);
}

#[test]
fn paused_game_is_frozen_for_1000_frames() {
    const SEED: u32 = 0x0BAD_5EED;
    let mut input = InputGen::new(SEED);
    let mut game = Game::new(SEED, 5);
    for _ in 0..300 {
        let mut buttons = input.next_frame(false);
        buttons.start = false;
        game.update(buttons);
    }
    assert!(matches!(game.phase(), Phase::Playing), "this seed does not top out within 300 frames");
    game.update(Buttons::default());
    game.update(Buttons { start: true, ..Buttons::default() });
    assert_eq!(game.phase(), Phase::Paused);

    let board_before = game.board().clone();
    let active_before = game.active_piece().copied();
    let ghost_before = game.ghost_piece();
    let score_before = game.score();
    let lines_before = game.total_lines();
    let hold_before = game.hold_piece();
    let next_before: [Tetromino; NEXT_COUNT] = core::array::from_fn(|i| game.next(i));

    for frame in 0..1_000 {
        let mut buttons = input.next_frame(false);
        buttons.start = false;
        game.update(buttons);
        assert_eq!(*game.events(), FrameEvents::default(), "events while paused (frame={frame})");
        if frame % 250 == 0 {
            check_invariants(&game, 5, SEED, frame);
        }
    }
    assert_eq!(game.phase(), Phase::Paused);
    assert_eq!(game.board(), &board_before, "the field changed while paused");
    assert_eq!(game.active_piece().copied(), active_before, "the piece changed while paused");
    assert_eq!(game.ghost_piece(), ghost_before, "the ghost changed while paused");
    assert_eq!(game.score(), score_before, "the score changed while paused");
    assert_eq!(game.total_lines(), lines_before, "the line count changed while paused");
    assert_eq!(game.hold_piece(), hold_before, "the hold changed while paused");
    let next_after: [Tetromino; NEXT_COUNT] = core::array::from_fn(|i| game.next(i));
    assert_eq!(next_after, next_before, "the next queue changed while paused");

    game.update(Buttons::default());
    game.update(Buttons { start: true, ..Buttons::default() });
    assert_eq!(game.phase(), Phase::Playing);
}
