use retris_core::active::ActivePiece;
use retris_core::game::{FrameEvents, Game, LockEvent, Phase, ARR_FRAMES, DAS_FRAMES};
use retris_core::input::Buttons;
use retris_core::piece::{Rotation, Tetromino};
use retris_core::piece::Tetromino::{I, J, L, O, S, Z};
use retris_core::tspin::TSpin;

/// Seed 1 deals T, Z, O, J, S, L, I, S, J, L, Z, T, I, O.
const SEED: u32 = 1;

fn game() -> Game {
    Game::new(SEED, 1)
}

fn idle() -> Buttons {
    Buttons::default()
}

fn left() -> Buttons {
    Buttons { left: true, ..Buttons::default() }
}

fn right() -> Buttons {
    Buttons { right: true, ..Buttons::default() }
}

fn down() -> Buttons {
    Buttons { down: true, ..Buttons::default() }
}

fn up() -> Buttons {
    Buttons { up: true, ..Buttons::default() }
}

fn cw() -> Buttons {
    Buttons { rotate_cw: true, ..Buttons::default() }
}

fn ccw() -> Buttons {
    Buttons { rotate_ccw: true, ..Buttons::default() }
}

fn hold() -> Buttons {
    Buttons { hold: true, ..Buttons::default() }
}

fn start() -> Buttons {
    Buttons { start: true, ..Buttons::default() }
}

fn run(game: &mut Game, buttons: Buttons, frames: u32) {
    for _ in 0..frames {
        game.update(buttons);
    }
}

fn active(game: &Game) -> ActivePiece {
    *game.active_piece().expect("there is a piece under control")
}

/// The T-Spin Double slot: the overhang at (3, 2) above a two-row slot.
fn build_tsd_field(game: &mut Game) {
    for x in 0..10 {
        if x != 4 {
            game.set_cell(x, 0, Some(Tetromino::J));
        }
        if !(3..=5).contains(&x) {
            game.set_cell(x, 1, Some(Tetromino::L));
        }
    }
    game.set_cell(3, 2, Some(Tetromino::S));
}

#[test]
fn das_constants() {
    assert_eq!(DAS_FRAMES, 10);
    assert_eq!(ARR_FRAMES, 2);
}

#[test]
fn new_game_spawns_first_piece_one_row_fallen() {
    let game = game();
    let piece = active(&game);
    assert_eq!(piece.kind, Tetromino::T, "seed 1 starts with T");
    assert_eq!(piece.rot, Rotation::Spawn);
    assert_eq!((piece.x, piece.y), (3, 18));
    assert_eq!(game.phase(), Phase::Playing);
    assert_eq!(game.score(), 0);
    assert_eq!(game.total_lines(), 0);
    assert_eq!(game.level(), 1);
    assert_eq!(game.hold_piece(), None);
}

#[test]
fn new_game_shows_five_next_pieces() {
    let game = game();
    let next: [Tetromino; 5] = core::array::from_fn(|i| game.next(i));
    assert_eq!(next, [Z, O, J, S, L]);
}

#[test]
fn new_game_respects_start_level() {
    assert_eq!(Game::new(SEED, 5).level(), 5);
}

#[test]
fn first_update_ignores_held_start() {
    let mut game = game();
    game.update(start());
    assert_eq!(game.phase(), Phase::Playing, "START held over into the first frame must not pause");
    game.update(idle());
    game.update(start());
    assert_eq!(game.phase(), Phase::Paused);
}

#[test]
fn first_update_ignores_held_hard_drop() {
    let mut game = game();
    game.update(up());
    assert_eq!(active(&game).kind, Tetromino::T, "ignored on the first frame");
    assert_eq!(game.score(), 0);
    game.update(idle());
    game.update(up());
    assert_eq!(active(&game).kind, Tetromino::Z);
    assert_eq!(game.score(), 38);
}

#[test]
fn first_update_ignores_held_hold() {
    let mut game = game();
    game.update(hold());
    assert_eq!(game.hold_piece(), None, "ignored on the first frame");
    assert_eq!(active(&game).kind, Tetromino::T);
    game.update(idle());
    game.update(hold());
    assert_eq!(game.hold_piece(), Some(Tetromino::T));
    assert_eq!(active(&game).kind, Tetromino::Z);
}

#[test]
fn first_update_ignores_held_rotation() {
    let mut game = game();
    game.update(cw());
    assert_eq!(active(&game).rot, Rotation::Spawn, "ignored on the first frame");
    game.update(idle());
    game.update(cw());
    assert_eq!(active(&game).rot, Rotation::Cw);
}

#[test]
fn held_buttons_from_first_update_do_not_fire_later() {
    let mut game = game();
    let held = Buttons { up: true, hold: true, start: true, rotate_cw: true, ..Buttons::default() };
    run(&mut game, held, 5);
    assert_eq!(game.phase(), Phase::Playing);
    assert_eq!(game.hold_piece(), None);
    assert_eq!(active(&game).kind, Tetromino::T);
    assert_eq!(active(&game).rot, Rotation::Spawn);
    assert_eq!(game.score(), 0);
}

#[test]
fn first_update_held_direction_acts_as_fresh_press() {
    let mut game = game();
    game.update(right());
    assert_eq!(active(&game).x, 4);
    run(&mut game, right(), 9);
    assert_eq!(active(&game).x, 4);
    game.update(right());
    assert_eq!(active(&game).x, 5);
}

#[test]
fn das_repeats_at_frames_1_11_13_15() {
    let mut game = game();
    let expected_x = [4, 4, 4, 4, 4, 4, 4, 4, 4, 4, 5, 5, 6, 6, 7, 7, 7];
    for (frame, &x) in (1..).zip(&expected_x) {
        game.update(right());
        assert_eq!(active(&game).x, x, "frame {frame}");
    }
}

#[test]
fn das_direction_switch_restarts_charge() {
    let mut game = game();
    run(&mut game, right(), 5);
    assert_eq!(active(&game).x, 4);
    game.update(left());
    assert_eq!(active(&game).x, 3);
    run(&mut game, left(), 9);
    assert_eq!(active(&game).x, 3, "no repeat before ten frames after the switch");
    game.update(left());
    assert_eq!(active(&game).x, 2);
}

#[test]
fn das_simultaneous_hold_prefers_later_press() {
    let both = Buttons { left: true, right: true, ..Buttons::default() };
    let mut game = game();
    run(&mut game, right(), 2);
    game.update(both);
    assert_eq!(active(&game).x, 3);
    run(&mut game, both, 9);
    assert_eq!(active(&game).x, 3);
    game.update(both);
    assert_eq!(active(&game).x, 2);
    game.update(right());
    assert_eq!(active(&game).x, 3);
    run(&mut game, right(), 9);
    assert_eq!(active(&game).x, 3);
    game.update(right());
    assert_eq!(active(&game).x, 4);
}

#[test]
fn das_wall_charge_flows_immediately_when_opened() {
    let mut game = game();
    run(&mut game, left(), 19);
    assert_eq!(active(&game).x, 0);
    game.update(Buttons { left: true, rotate_cw: true, ..Buttons::default() });
    assert_eq!(active(&game).rot, Rotation::Cw);
    assert_eq!(active(&game).x, 0);
    game.update(left());
    assert_eq!(active(&game).x, -1);
}

#[test]
fn das_charge_survives_hard_drop_and_spawn() {
    let mut game = game();
    run(&mut game, left(), 19);
    assert_eq!(active(&game).x, 0);
    game.update(Buttons { left: true, up: true, ..Buttons::default() });
    assert_eq!(game.score(), 38);
    assert_eq!(active(&game).kind, Tetromino::Z);
    assert_eq!(active(&game).x, 3);
    game.update(left());
    assert_eq!(active(&game).x, 2);
    game.update(left());
    assert_eq!(active(&game).x, 2);
    game.update(left());
    assert_eq!(active(&game).x, 1);
    run(&mut game, left(), 2);
    assert_eq!(active(&game).x, 0);
}

#[test]
fn das_charge_survives_hold_spawn() {
    let mut game = game();
    run(&mut game, left(), 13);
    assert_eq!(active(&game).x, 0);
    game.update(Buttons { left: true, hold: true, ..Buttons::default() });
    assert_eq!(game.hold_piece(), Some(Tetromino::T));
    assert_eq!(active(&game).kind, Tetromino::Z);
    assert_eq!(active(&game).x, 3);
    game.update(left());
    assert_eq!(active(&game).x, 2);
    run(&mut game, left(), 2);
    assert_eq!(active(&game).x, 1);
}

#[test]
fn rotation_fires_once_per_press_edge() {
    let mut game = game();
    game.update(idle());
    game.update(cw());
    assert_eq!(active(&game).rot, Rotation::Cw);
    game.update(cw());
    assert_eq!(active(&game).rot, Rotation::Cw);
    game.update(idle());
    game.update(cw());
    assert_eq!(active(&game).rot, Rotation::Flip);
}

#[test]
fn rotation_flag_set_and_cleared_by_move_and_fall() {
    let mut game = game();
    game.update(idle());
    game.update(cw());
    assert!(game.last_action_was_rotation());
    game.update(right());
    assert!(!game.last_action_was_rotation());
    game.update(cw());
    assert!(game.last_action_was_rotation());
    run(&mut game, down(), 3);
    assert_eq!(active(&game).y, 17);
    assert!(!game.last_action_was_rotation(), "a one-row fall clears the flag");
}

#[test]
fn failed_shift_keeps_last_action_rotation_flag() {
    let mut game = game();
    run(&mut game, left(), 13);
    assert_eq!(active(&game).x, 0);
    game.update(idle());
    game.update(ccw());
    assert!(game.last_action_was_rotation());
    game.update(left());
    assert_eq!(active(&game).x, 0);
    assert!(game.last_action_was_rotation(), "a failed move leaves the flag alone");
}

#[test]
fn o_rotation_input_changes_nothing() {
    let mut game = game();
    game.update(idle());
    game.update(up());
    game.update(idle());
    game.update(up());
    game.update(idle());
    let before = active(&game);
    assert_eq!(before.kind, Tetromino::O);
    game.update(cw());
    assert_eq!(active(&game), before, "rotation input leaves O unchanged");
    assert!(!game.last_action_was_rotation());
}

#[test]
fn soft_drop_at_level_1_falls_every_3_frames_and_scores() {
    let mut game = game();
    run(&mut game, down(), 2);
    assert_eq!((active(&game).y, game.score()), (18, 0));
    game.update(down());
    assert_eq!((active(&game).y, game.score()), (17, 1));
    run(&mut game, down(), 3);
    assert_eq!((active(&game).y, game.score()), (16, 2));
}

#[test]
fn soft_drop_while_grounded_adds_no_points() {
    let mut game = game();
    game.set_cell(4, 16, Some(Tetromino::J));
    run(&mut game, down(), 6);
    assert_eq!((active(&game).y, game.score()), (16, 2));
    run(&mut game, down(), 14);
    assert_eq!(game.score(), 2, "a grounded piece does not fall, so no points");
    assert_eq!(active(&game).y, 16);
}

#[test]
fn hard_drop_locks_immediately_and_scores_2_per_cell() {
    let mut game = game();
    game.update(idle());
    game.update(up());
    assert_eq!(game.score(), 38);
    for (x, y) in [(3, 0), (4, 0), (5, 0), (4, 1)] {
        assert_eq!(game.board().get(x, y), Some(Tetromino::T), "({x}, {y})");
    }
    let piece = active(&game);
    assert_eq!(piece.kind, Tetromino::Z, "the next piece spawns in the same frame");
    assert_eq!((piece.x, piece.y), (3, 18));
}

#[test]
fn hard_drop_requires_new_press_for_next_piece() {
    let mut game = game();
    game.update(idle());
    game.update(up());
    game.update(up());
    assert_eq!(active(&game).kind, Tetromino::Z);
    assert_eq!(game.score(), 38);
    game.update(idle());
    game.update(up());
    assert_eq!(active(&game).kind, Tetromino::O);
    assert_eq!(game.score(), 38 + 34);
}

#[test]
fn grounded_piece_locks_after_30_frames() {
    let mut game = game();
    game.set_cell(4, 16, Some(Tetromino::J));
    run(&mut game, down(), 6);
    run(&mut game, idle(), 28);
    assert_eq!(active(&game).kind, Tetromino::T, "not locked after 29 frames");
    game.update(idle());
    assert_eq!(active(&game).kind, Tetromino::Z);
    for (x, y) in [(3, 17), (4, 17), (5, 17), (4, 18)] {
        assert_eq!(game.board().get(x, y), Some(Tetromino::T), "({x}, {y})");
    }
}

#[test]
fn grounded_shift_resets_lock_timer() {
    let mut game = game();
    game.set_cell(4, 16, Some(Tetromino::J));
    run(&mut game, down(), 6);
    run(&mut game, idle(), 13);
    game.update(right());
    assert_eq!(active(&game).x, 4);
    run(&mut game, idle(), 28);
    assert_eq!(active(&game).kind, Tetromino::T, "alive after the move reset");
    game.update(idle());
    assert_eq!(active(&game).kind, Tetromino::Z);
}

#[test]
fn first_hold_stores_piece_and_spawns_from_queue() {
    let mut game = game();
    game.update(idle());
    game.update(hold());
    assert_eq!(game.hold_piece(), Some(Tetromino::T));
    let piece = active(&game);
    assert_eq!(piece.kind, Tetromino::Z, "spawned from the queue");
    assert_eq!((piece.x, piece.y), (3, 18), "the usual spawn applies");
}

#[test]
fn hold_is_ignored_until_next_lock() {
    let mut game = game();
    game.update(idle());
    game.update(hold());
    game.update(idle());
    game.update(hold());
    assert_eq!(active(&game).kind, Tetromino::Z);
    assert_eq!(game.hold_piece(), Some(Tetromino::T));
    assert!(!game.events().hold_performed);
}

#[test]
fn hold_swaps_after_lock() {
    let mut game = game();
    game.update(idle());
    game.update(hold());
    game.update(idle());
    game.update(up());
    game.update(idle());
    game.update(hold());
    assert_eq!(game.hold_piece(), Some(Tetromino::O));
    let piece = active(&game);
    assert_eq!(piece.kind, Tetromino::T);
    assert_eq!((piece.x, piece.y), (3, 18));
}

#[test]
fn tspin_double_flow_awards_full_tspin_score() {
    let mut game = game();
    build_tsd_field(&mut game);

    run(&mut game, down(), 48);
    assert_eq!((active(&game).y, game.score()), (2, 16));
    game.update(Buttons { down: true, rotate_cw: true, ..Buttons::default() });
    assert_eq!(active(&game).rot, Rotation::Cw);
    run(&mut game, down(), 5);
    assert_eq!((active(&game).y, game.score()), (0, 18));
    game.update(cw());
    assert_eq!(active(&game).rot, Rotation::Flip);
    game.update(idle());
    game.update(up());
    assert_eq!(game.score(), 18 + 1200);
    assert_eq!(game.total_lines(), 2);
    assert_eq!(active(&game).kind, Tetromino::Z);
    assert_eq!(game.board().get(3, 0), Some(Tetromino::S));
    assert_eq!(game.board().get(4, 0), None);
}

#[test]
fn line_clear_updates_score_lines_and_level_multiplier() {
    let mut game = Game::new(SEED, 2);
    for x in [0, 1, 2, 6, 7, 8, 9] {
        game.set_cell(x, 0, Some(Tetromino::L));
    }
    game.update(idle());
    game.update(up());
    assert_eq!(game.score(), 38 + 200);
    assert_eq!(game.total_lines(), 1);
    assert_eq!(game.level(), 2);
    assert_eq!(game.board().get(4, 0), Some(Tetromino::T));
    assert_eq!(game.board().get(0, 0), None);
}

#[test]
fn block_out_on_spawn_is_game_over() {
    let mut game = game();
    game.set_cell(3, 21, Some(Tetromino::J));
    game.update(idle());
    game.update(up());
    assert_eq!(game.phase(), Phase::GameOver);
    assert_eq!(game.active_piece(), None);
    assert_eq!(game.ghost_piece(), None);
}

#[test]
fn block_out_on_hold_spawn_is_game_over() {
    let mut game = game();
    game.set_cell(3, 21, Some(Tetromino::J));
    game.update(idle());
    game.update(hold());
    assert_eq!(game.phase(), Phase::GameOver);
}

#[test]
fn lock_out_fully_above_visible_area_is_game_over() {
    let mut game = game();
    game.set_cell(4, 19, Some(Tetromino::J));
    game.update(idle());
    game.update(hold());
    assert_eq!(active(&game).y, 19);
    game.update(up());
    assert_eq!(game.phase(), Phase::GameOver);
}

#[test]
fn game_over_updates_are_inert() {
    let mut game = game();
    game.set_cell(3, 21, Some(Tetromino::J));
    game.update(idle());
    game.update(up());
    assert_eq!(game.phase(), Phase::GameOver);
    let score = game.score();
    let board = game.board().clone();
    let chaos = Buttons { left: true, down: true, up: true, rotate_cw: true, hold: true, start: true, ..Buttons::default() };
    run(&mut game, chaos, 30);
    run(&mut game, idle(), 5);
    assert_eq!(game.phase(), Phase::GameOver, "START does not bring the game back");
    assert_eq!(game.score(), score);
    assert_eq!(game.board(), &board);
    assert_eq!(game.active_piece(), None);
}

#[test]
fn start_toggles_pause_and_freezes_everything() {
    let mut game = game();
    game.update(right());
    run(&mut game, idle(), 4);
    game.update(start());
    assert_eq!(game.phase(), Phase::Paused);
    let piece = active(&game);
    let board = game.board().clone();
    let chaos = Buttons { left: true, down: true, up: true, rotate_cw: true, hold: true, ..Buttons::default() };
    run(&mut game, chaos, 50);
    assert_eq!(game.phase(), Phase::Paused);
    assert_eq!(active(&game), piece);
    assert_eq!(game.score(), 0);
    assert_eq!(game.hold_piece(), None);
    assert_eq!(game.board(), &board);
    game.update(Buttons { start: true, up: true, ..Buttons::default() });
    assert_eq!(game.phase(), Phase::Playing);
    game.update(up());
    assert_eq!(active(&game), piece);
    assert_eq!(game.score(), 0);
}

#[test]
fn pause_preserves_lock_timer_progress() {
    let mut game = game();
    game.set_cell(4, 16, Some(Tetromino::J));
    run(&mut game, down(), 6);
    run(&mut game, idle(), 9);
    game.update(start());
    let chaos = Buttons { left: true, down: true, up: true, rotate_cw: true, ..Buttons::default() };
    run(&mut game, chaos, 100);
    game.update(start());
    assert_eq!(game.phase(), Phase::Playing);
    run(&mut game, idle(), 19);
    assert_eq!(active(&game).kind, Tetromino::T, "the timer continues where it stopped");
    assert_eq!(game.score(), 2, "down while paused scores nothing");
    game.update(idle());
    assert_eq!(active(&game).kind, Tetromino::Z);
    assert_eq!(game.board().get(3, 17), Some(Tetromino::T));
}

#[test]
fn quiet_frame_has_no_events() {
    let mut game = game();
    assert_eq!(*game.events(), FrameEvents::default(), "empty before the first update");
    game.update(idle());
    assert_eq!(*game.events(), FrameEvents::default());
    assert_eq!(game.combo(), -1);
    assert!(!game.b2b());
}

#[test]
fn hard_drop_without_clear_reports_lock_event() {
    let mut game = game();
    game.update(idle());
    game.update(up());
    let events = game.events();
    assert!(events.hard_dropped);
    assert_eq!(
        events.locked,
        Some(LockEvent {
            lines_cleared: 0,
            tspin: TSpin::NoSpin,
            b2b_applied: false,
            combo: -1,
            perfect_clear: false,
            points_awarded: 0,
            level_up: false,
        }),
        "drop points (38) are not part of points_awarded"
    );
    assert!(!events.hold_performed);
    assert!(!events.topped_out);
    assert_eq!(game.score(), 38);
    game.update(idle());
    assert_eq!(*game.events(), FrameEvents::default());
}

#[test]
fn line_clear_lock_event_reports_points_and_combo() {
    let mut game = game();
    for x in [0, 1, 2, 6, 7, 8, 9] {
        game.set_cell(x, 0, Some(Tetromino::L));
    }
    game.update(idle());
    game.update(up());
    let locked = game.events().locked.expect("a lock happened");
    assert_eq!(locked.lines_cleared, 1);
    assert_eq!(locked.tspin, TSpin::NoSpin);
    assert_eq!(locked.points_awarded, 100, "Single 100 x level 1");
    assert_eq!(locked.combo, 0, "the first clear is combo 0");
    assert!(!locked.b2b_applied);
    assert!(!locked.perfect_clear);
    assert!(!locked.level_up);
    assert_eq!(game.combo(), 0);
    assert!(!game.b2b(), "a Single does not start a back-to-back chain");
}

#[test]
fn tspin_double_lock_event_reports_tspin_b2b_and_combo() {
    let mut game = game();
    build_tsd_field(&mut game);
    assert_eq!(game.record_lock(4, TSpin::NoSpin, false), 800);
    assert!(game.b2b());
    run(&mut game, down(), 48);
    game.update(Buttons { down: true, rotate_cw: true, ..Buttons::default() });
    run(&mut game, down(), 5);
    game.update(cw());
    game.update(idle());
    game.update(up());
    let locked = game.events().locked.expect("a lock happened");
    assert_eq!(locked.lines_cleared, 2);
    assert_eq!(locked.tspin, TSpin::Full);
    assert!(locked.b2b_applied, "TSD during a back-to-back chain");
    assert_eq!(locked.combo, 1, "the recorded Tetris is combo 0");
    assert!(!locked.perfect_clear);
    assert_eq!(locked.points_awarded, 1850);
    assert!(game.events().hard_dropped);
    assert!(game.b2b());
    assert_eq!(game.combo(), 1);
}

#[test]
fn hold_sets_hold_performed_event() {
    let mut game = game();
    game.update(idle());
    game.update(hold());
    let events = game.events();
    assert!(events.hold_performed);
    assert_eq!(events.locked, None);
    assert!(!events.hard_dropped);
    game.update(idle());
    assert!(!game.events().hold_performed);
}

#[test]
fn level_up_is_reported_on_lock_event() {
    let mut game = game();
    for _ in 0..3 {
        game.record_lock(3, TSpin::NoSpin, false);
    }
    game.record_lock(0, TSpin::NoSpin, false);
    for x in [0, 1, 2, 6, 7, 8, 9] {
        game.set_cell(x, 0, Some(Tetromino::L));
    }
    game.update(idle());
    game.update(up());
    let locked = game.events().locked.expect("a lock happened");
    assert!(locked.level_up);
    assert_eq!(locked.points_awarded, 100, "the level multiplier is the one before the clear");
    assert_eq!(game.level(), 2);
}

#[test]
fn shift_rotate_and_soft_drop_events() {
    let mut game = game();
    game.update(idle());
    game.update(right());
    assert!(game.events().shifted);
    assert!(!game.events().rotated);
    game.update(cw());
    assert!(game.events().rotated);
    assert!(!game.events().shifted);
    run(&mut game, down(), 2);
    assert_eq!(game.events().soft_drop_rows, 0);
    game.update(down());
    assert_eq!(game.events().soft_drop_rows, 1);
    assert_eq!(game.events().locked, None);
}

#[test]
fn failed_shift_does_not_report_event() {
    let mut game = game();
    run(&mut game, left(), 13);
    assert_eq!(active(&game).x, 0);
    run(&mut game, left(), 2);
    assert!(!game.events().shifted);
}

#[test]
fn paused_frames_report_no_events() {
    let mut game = game();
    game.update(idle());
    game.update(start());
    assert_eq!(game.phase(), Phase::Paused);
    assert_eq!(*game.events(), FrameEvents::default());
    let chaos = Buttons { left: true, down: true, up: true, rotate_cw: true, hold: true, ..Buttons::default() };
    run(&mut game, chaos, 10);
    assert_eq!(*game.events(), FrameEvents::default());
}

#[test]
fn block_out_sets_topped_out_with_lock_event() {
    let mut game = game();
    game.set_cell(3, 21, Some(Tetromino::J));
    game.update(idle());
    game.update(up());
    let events = game.events();
    assert!(events.topped_out);
    assert!(events.hard_dropped);
    assert!(events.locked.is_some(), "the lock itself completes, scoring included");
    game.update(idle());
    assert_eq!(*game.events(), FrameEvents::default());
}

#[test]
fn lock_out_reports_topped_out_without_lock_event() {
    let mut game = game();
    game.set_cell(4, 19, Some(Tetromino::J));
    game.update(idle());
    game.update(hold());
    game.update(up());
    assert_eq!(game.phase(), Phase::GameOver);
    let events = game.events();
    assert!(events.topped_out);
    assert!(events.hard_dropped);
    assert_eq!(events.locked, None, "a lock out neither scores nor clears");
}

#[test]
fn ghost_piece_tracks_hard_drop_position() {
    let mut game = game();
    assert_eq!(game.ghost_piece(), Some(ActivePiece { kind: Tetromino::T, rot: Rotation::Spawn, x: 3, y: -1 }));
    game.set_cell(4, 10, Some(Tetromino::I));
    assert_eq!(game.ghost_piece().map(|g| g.y), Some(10));
}

#[test]
fn next_previews_advance_after_lock() {
    let mut game = game();
    game.update(idle());
    game.update(up());
    let next: [Tetromino; 5] = core::array::from_fn(|i| game.next(i));
    assert_eq!(next, [O, J, S, L, I]);
}

#[test]
fn a_fresh_game_has_headroom_for_many_frames() {
    let mut game = game();
    assert!(game.has_frame_headroom());
    for _ in 0..100 {
        game.record_lock(4, TSpin::NoSpin, false);
    }
    assert!(game.has_frame_headroom());
    assert_eq!(game.total_lines(), 400);
    assert_eq!(game.level(), 41);
}

#[test]
fn hold_then_lock_then_hold_again() {
    let mut game = game();
    game.update(idle());
    game.update(hold());
    assert!(game.events().hold_performed);
    game.update(idle());
    game.update(up());
    game.update(idle());
    game.update(hold());
    assert!(game.events().hold_performed);
    game.update(idle());
    game.update(hold());
    assert!(!game.events().hold_performed, "a second hold before the lock is ignored");
}

#[test]
fn lock_out_with_the_block_beside_the_piece() {
    let mut game = game();
    game.set_cell(3, 20, Some(Tetromino::J));
    game.update(idle());
    game.update(hold());
    assert_eq!(active(&game).kind, Tetromino::Z);
    assert_eq!(active(&game).y, 19);
    game.update(up());
    assert_eq!(game.phase(), Phase::GameOver);
    let events = game.events();
    assert!(events.topped_out);
    assert!(events.hard_dropped);
    assert_eq!(events.locked, None, "a lock out neither scores nor clears");
    assert_eq!(game.score(), 0);
}

#[test]
fn can_update_asks_headroom_only_of_playing_frames() {
    let mut game = game();
    assert!(game.can_update(idle()));
    assert!(game.can_update(start()));
    game.update(idle());
    game.update(start());
    assert_eq!(game.phase(), Phase::Paused);
    assert!(game.can_update(idle()));
}
