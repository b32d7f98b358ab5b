//! What the screens show: the visible field with its ghost, the preview of
//! a kind in the next and hold slots, the title menu and the short-lived
//! back-to-back / combo notice of the HUD.
use vstd::prelude::*;

use crate::active::ActivePiece;
use crate::board::{cell_in, fits_in};
use crate::game::{Game, GameState, LockEvent, Phase, ghost_of, game_inv, lemma_landing_fits};
use crate::physics::lemma_fits_in_bounds;
use crate::piece::{Rotation, Tetromino, lemma_shape_in_box, shape};

verus! {

/// One visible cell of the field.
#[derive(Debug, Clone, Copy, PartialEq, Eq, Structural)]
pub enum FieldCell {
    /// Nothing.
    Empty,
    /// A locked block or a block of the active piece.
    Block(Tetromino),
    /// A cell of the ghost piece (drawn as an outline).
    Shadow(Tetromino),
}

/// What cell `(x, y)` shows: the active piece above its ghost above the
/// locked blocks. After game over only the locked blocks show.
pub open spec fn field_cell_at(s: GameState, x: int, y: int) -> FieldCell {
    if s.phase != Phase::GameOver && s.active.covers(x, y) {
        FieldCell::Block(s.active.kind)
    } else if s.phase != Phase::GameOver && ghost_of(s).covers(x, y) {
        FieldCell::Shadow(s.active.kind)
    } else {
        match cell_in(s.board, x, y) {
            Some(kind) => FieldCell::Block(kind),
            None => FieldCell::Empty,
        }
    }
}

/// Whether one of the four cells is `(x, y)`.
fn has_cell(cells: &[(i8, i8); 4], x: i8, y: i8) -> (r: bool)
    ensures
        r == exists|i: int| 0 <= i < 4 && cells@[i] == (x, y),
{
    let mut i: usize = 0;
    while i < 4
        invariant
            0 <= i <= 4,
            forall|j: int| 0 <= j < i ==> cells@[j] != (x, y),
        decreases 4 - i,
    {
        if cells[i].0 == x && cells[i].1 == y {
            assert(cells@[i as int] == (x, y));
            return true;
        }
        i = i + 1;
    }
    false
}

/// The 20 visible rows of the field (bottom row first, ten cells each):
/// locked blocks, the ghost piece and the active piece on top.
pub fn visible_field(game: &Game) -> (r: [[FieldCell; 10]; 20])
    requires
        game.wf(),
    ensures
        forall|x: int, y: int|
            0 <= x < 10 && 0 <= y < 20 ==> #[trigger] r@[y]@[x] == field_cell_at(game@, x, y),
{
    proof {
        game.lemma_wf();
    }
    let ghost s = game@;
    let board = game.board();
    let playing = !matches!(game.phase(), Phase::GameOver);
    let mut kind = Tetromino::I;
    let mut active_cells: [(i8, i8); 4] = [(0, 0); 4];
    let mut ghost_cells: [(i8, i8); 4] = [(0, 0); 4];
    if playing {
        proof {
            lemma_fits_in_bounds(s.board, s.active);
            lemma_landing_fits(s);
            lemma_fits_in_bounds(s.board, ghost_of(s));
        }
        let active = *game.active_piece().unwrap();
        let landing = game.ghost_piece().unwrap();
        kind = active.kind;
        active_cells = active.cells();
        ghost_cells = landing.cells();
    }
    let mut out: [[FieldCell; 10]; 20] = [[FieldCell::Empty; 10]; 20];
    let mut y: usize = 0;
    while y < 20
        invariant
            0 <= y <= 20,
            s == game@,
            board@ == s.board,
            playing == (s.phase != Phase::GameOver),
            playing ==> kind == s.active.kind,
            playing ==> forall|i: int|
                0 <= i < 4 ==> active_cells@[i].0 == s.active.cell_x(i) && active_cells@[i].1 == s.active.cell_y(i),
            playing ==> forall|i: int|
                0 <= i < 4 ==> ghost_cells@[i].0 == ghost_of(s).cell_x(i) && ghost_cells@[i].1 == ghost_of(s).cell_y(i),
            forall|cx: int, cy: int|
                0 <= cx < 10 && 0 <= cy < y ==> #[trigger] out@[cy]@[cx] == field_cell_at(s, cx, cy),
        decreases 20 - y,
    {
        let mut row: [FieldCell; 10] = [FieldCell::Empty; 10];
        let mut x: usize = 0;
        while x < 10
            invariant
                0 <= x <= 10,
                0 <= y < 20,
                s == game@,
                board@ == s.board,
                playing == (s.phase != Phase::GameOver),
                playing ==> kind == s.active.kind,
                playing ==> forall|i: int|
                    0 <= i < 4 ==> active_cells@[i].0 == s.active.cell_x(i) && active_cells@[i].1 == s.active.cell_y(i),
                playing ==> forall|i: int|
                    0 <= i < 4 ==> ghost_cells@[i].0 == ghost_of(s).cell_x(i) && ghost_cells@[i].1 == ghost_of(s).cell_y(i),
                forall|cx: int| 0 <= cx < x ==> #[trigger] row@[cx] == field_cell_at(s, cx, y as int),
            decreases 10 - x,
        {
            let cx = x as i8;
            let cy = y as i8;
            let in_active = playing && has_cell(&active_cells, cx, cy);
            let in_ghost = playing && has_cell(&ghost_cells, cx, cy);
            proof {
                if playing {
                    if s.active.covers(x as int, y as int) {
                        let i = choose|i: int| 0 <= i < 4 && s.active.cell_x(i) == x && s.active.cell_y(i) == y;
                        assert(active_cells@[i] == (cx, cy));
                    }
                    if in_active {
                        let i = choose|i: int| 0 <= i < 4 && active_cells@[i] == (cx, cy);
                        assert(s.active.cell_x(i) == x && s.active.cell_y(i) == y);
                    }
                    if ghost_of(s).covers(x as int, y as int) {
                        let i = choose|i: int|
                            0 <= i < 4 && ghost_of(s).cell_x(i) == x && ghost_of(s).cell_y(i) == y;
                        assert(ghost_cells@[i] == (cx, cy));
                    }
                    if in_ghost {
                        let i = choose|i: int| 0 <= i < 4 && ghost_cells@[i] == (cx, cy);
                        assert(ghost_of(s).cell_x(i) == x && ghost_of(s).cell_y(i) == y);
                    }
                }
            }
            let cell = if in_active {
                FieldCell::Block(kind)
            } else if in_ghost {
                FieldCell::Shadow(kind)
            } else {
                match board.get(cx, cy) {
                    Some(k) => FieldCell::Block(k),
                    None => FieldCell::Empty,
                }
            };
            row[x] = cell;
            x = x + 1;
        }
        out[y] = row;
        y = y + 1;
    }
    out
}

/// Smallest column of the four cells.
pub open spec fn min_col(cells: Seq<(i8, i8)>) -> int {
    let a = if cells[0].0 <= cells[1].0 {
        cells[0].0
    } else {
        cells[1].0
    };
    let b = if cells[2].0 <= cells[3].0 {
        cells[2].0
    } else {
        cells[3].0
    };
    if a <= b {
        a as int
    } else {
        b as int
    }
}

/// Largest column of the four cells.
pub open spec fn max_col(cells: Seq<(i8, i8)>) -> int {
    let a = if cells[0].0 >= cells[1].0 {
        cells[0].0
    } else {
        cells[1].0
    };
    let b = if cells[2].0 >= cells[3].0 {
        cells[2].0
    } else {
        cells[3].0
    };
    if a >= b {
        a as int
    } else {
        b as int
    }
}

/// Highest row of the four cells.
pub open spec fn max_row(cells: Seq<(i8, i8)>) -> int {
    let a = if cells[0].1 >= cells[1].1 {
        cells[0].1
    } else {
        cells[1].1
    };
    let b = if cells[2].1 >= cells[3].1 {
        cells[2].1
    } else {
        cells[3].1
    };
    if a >= b {
        a as int
    } else {
        b as int
    }
}

/// Where the `i`-th cell of `kind` goes in a preview slot of 4 x 2 tiles:
/// the spawn shape, centred horizontally, its top row on the slot's first
/// tile row (rows count downwards on screen).
pub open spec fn preview_cell(kind: Tetromino, i: int) -> (int, int) {
    let cells = shape(kind, Rotation::Spawn);
    let width = max_col(cells) - min_col(cells) + 1;
    let offset = (4 - width + 1) / 2;
    (offset + cells[i].0 - min_col(cells), max_row(cells) - cells[i].1)
}

/// Every preview cell lies inside the 4 x 2 slot.
pub proof fn lemma_preview_in_slot(kind: Tetromino, i: int)
    requires
        0 <= i < 4,
    ensures
        0 <= preview_cell(kind, i).0 < 4,
        0 <= preview_cell(kind, i).1 < 2,
{
    match kind {
        Tetromino::I => {},
        Tetromino::O => {},
        Tetromino::T => {},
        Tetromino::S => {},
        Tetromino::Z => {},
        Tetromino::J => {},
        Tetromino::L => {},
    }
}

/// The smaller of two values.
fn min_i8(a: i8, b: i8) -> (r: i8)
    ensures
        r == (if a <= b {
            a
        } else {
            b
        }),
{
    if a <= b {
        a
    } else {
        b
    }
}

/// The larger of two values.
fn max_i8(a: i8, b: i8) -> (r: i8)
    ensures
        r == (if a >= b {
            a
        } else {
            b
        }),
{
    if a >= b {
        a
    } else {
        b
    }
}

/// Tile offsets (column, row) of the four cells of `kind` inside a preview
/// slot of 4 x 2 tiles.
pub fn preview_cells(kind: Tetromino) -> (r: [(i8, i8); 4])
    ensures
        forall|i: int|
            0 <= i < 4 ==> (#[trigger] r@[i]).0 == preview_cell(kind, i).0 && r@[i].1 == preview_cell(kind, i).1,
        forall|i: int| 0 <= i < 4 ==> 0 <= (#[trigger] r@[i]).0 < 4 && 0 <= r@[i].1 < 2,
{
    let c = kind.cells(Rotation::Spawn);
    let ghost cells = shape(kind, Rotation::Spawn);
    proof {
        lemma_shape_in_box(kind, Rotation::Spawn);
    }
    let min_cx = min_i8(min_i8(c[0].0, c[1].0), min_i8(c[2].0, c[3].0));
    let max_cx = max_i8(max_i8(c[0].0, c[1].0), max_i8(c[2].0, c[3].0));
    let max_cy = max_i8(max_i8(c[0].1, c[1].1), max_i8(c[2].1, c[3].1));
    assert(min_cx == min_col(cells) && max_cx == max_col(cells) && max_cy == max_row(cells));
    let width = max_cx - min_cx + 1;
    let offset = (4 - width + 1) / 2;
    assert(offset == (4 - (max_col(cells) - min_col(cells) + 1) + 1) / 2);
    let mut r: [(i8, i8); 4] = [(0, 0); 4];
    let mut i: usize = 0;
    while i < 4
        invariant
            0 <= i <= 4,
            c@ == cells,
            cells == shape(kind, Rotation::Spawn),
            forall|k: int| 0 <= k < 4 ==> 0 <= #[trigger] cells[k].0 <= 3 && 0 <= cells[k].1 <= 3,
            min_cx == min_col(cells),
            max_cy == max_row(cells),
            0 <= offset <= 2,
            offset == (4 - (max_col(cells) - min_col(cells) + 1) + 1) / 2,
            forall|k: int|
                0 <= k < i ==> (#[trigger] r@[k]).0 == preview_cell(kind, k).0 && r@[k].1 == preview_cell(kind, k).1,
        decreases 4 - i,
    {
        r[i] = (offset + c[i].0 - min_cx, max_cy - c[i].1);
        i = i + 1;
    }
    proof {
        assert forall|k: int| 0 <= k < 4 implies 0 <= (#[trigger] r@[k]).0 < 4 && 0 <= r@[k].1 < 2 by {
            lemma_preview_in_slot(kind, k);
        }
    }
    r
}

/// Lowest start level that can be chosen.
pub const LEVEL_MIN: u32 = 1;

/// Highest start level that can be chosen.
pub const LEVEL_MAX: u32 = 15;

/// Frames between two blinks of the start prompt.
pub const BLINK_FRAMES: u8 = 30;

/// Knuth's multiplicative hash constant that spreads the frame counter
/// over the seed.
pub const SEED_MULTIPLIER: u32 = 2_654_435_761;

/// The seed a start press at frame `frame_count` gives: the counter spread
/// by the multiplicative hash, made odd so that it is never zero.
pub open spec fn seed_of(frame_count: u32) -> u32 {
    vstd::wrapping::u32_specs::wrapping_mul(frame_count, SEED_MULTIPLIER) | 1
}

/// A game to start: its seed and start level.
#[derive(Debug, Clone, Copy, PartialEq, Eq, Structural)]
pub struct GameStart {
    /// Seed of the piece sequence.
    pub seed: u32,
    /// Start level (1 to 15).
    pub start_level: u32,
}

/// What the title screen must do after one frame.
#[derive(Debug, Clone, Copy, PartialEq, Eq, Structural)]
pub struct TitleStep {
    /// The chosen level changed and must be redrawn.
    pub level_changed: bool,
    /// The start prompt blinked: `Some(true)` shows it, `Some(false)` hides it.
    pub blink: Option<bool>,
    /// START was pressed: the game to start.
    pub start: Option<GameStart>,
}

/// The title menu: a frame counter that seeds the game, the chosen start
/// level and the blinking start prompt.
#[derive(Debug, Clone, Copy)]
pub struct TitleMenu {
    frame_count: u32,
    level: u32,
    blink_timer: u8,
    blink_visible: bool,
}

impl TitleMenu {
    #[verifier::type_invariant]
    spec fn inv(self) -> bool {
        &&& 1 <= self.level <= 15
        &&& 1 <= self.blink_timer <= 30
    }

    /// Frames counted so far.
    pub closed spec fn spec_frame_count(self) -> u32 {
        self.frame_count
    }

    /// The chosen start level.
    pub closed spec fn spec_level(self) -> u32 {
        self.level
    }

    /// Frames until the prompt blinks.
    pub closed spec fn spec_blink_timer(self) -> u8 {
        self.blink_timer
    }

    /// Whether the start prompt is shown.
    pub closed spec fn spec_blink_visible(self) -> bool {
        self.blink_visible
    }

    /// The level after a frame with these presses: up raises it (up to 15),
    /// then down lowers it (down to 1).
    pub open spec fn level_after(level: u32, up: bool, down: bool) -> u32 {
        let raised = if up && level < LEVEL_MAX {
            (level + 1) as u32
        } else {
            level
        };
        if down && raised > LEVEL_MIN {
            (raised - 1) as u32
        } else {
            raised
        }
    }

    /// A fresh menu: level 1, prompt shown, counter at zero.
    pub fn new() -> (r: TitleMenu)
        ensures
            r.spec_frame_count() == 0,
            r.spec_level() == LEVEL_MIN,
            r.spec_blink_timer() == BLINK_FRAMES,
            r.spec_blink_visible(),
    {
        TitleMenu { frame_count: 0, level: LEVEL_MIN, blink_timer: BLINK_FRAMES, blink_visible: true }
    }

    /// One frame of the title screen with the buttons newly pressed in it:
    /// the counter advances (wrapping), up / down change the level within
    /// 1 to 15, the prompt blinks every 30 frames, and START starts a game
    /// seeded from the counter.
    pub fn update(&mut self, up: bool, down: bool, start: bool) -> (r: TitleStep)
        ensures
            final(self).spec_frame_count() == vstd::wrapping::u32_specs::wrapping_add(
                old(self).spec_frame_count(),
                1,
            ),
            final(self).spec_level() == Self::level_after(old(self).spec_level(), up, down),
            1 <= final(self).spec_level() <= 15,
            r.level_changed == ((up && old(self).spec_level() < LEVEL_MAX) || (down && Self::level_after(
                old(self).spec_level(),
                up,
                false,
            ) > LEVEL_MIN)),
            old(self).spec_blink_timer() == 1 ==> final(self).spec_blink_timer() == BLINK_FRAMES
                && final(self).spec_blink_visible() == !old(self).spec_blink_visible() && r.blink == Some(
                final(self).spec_blink_visible(),
            ),
            old(self).spec_blink_timer() != 1 ==> final(self).spec_blink_timer() == old(self).spec_blink_timer() - 1
                && final(self).spec_blink_visible() == old(self).spec_blink_visible() && r.blink is None,
            r.start == (if start {
                Some(GameStart { seed: seed_of(final(self).spec_frame_count()), start_level: final(self).spec_level() })
            } else {
                None
            }),
    {
        proof {
            use_type_invariant(&*self);
        }
        self.frame_count = self.frame_count.wrapping_add(1);
        let mut level_changed = false;
        if up && self.level < LEVEL_MAX {
            self.level = self.level + 1;
            level_changed = true;
        }
        if down && self.level > LEVEL_MIN {
            self.level = self.level - 1;
            level_changed = true;
        }
        let mut blink = None;
        if self.blink_timer == 1 {
            self.blink_timer = BLINK_FRAMES;
            self.blink_visible = !self.blink_visible;
            blink = Some(self.blink_visible);
        } else {
            self.blink_timer = self.blink_timer - 1;
        }
        let start = if start {
            Some(GameStart { seed: self.frame_count.wrapping_mul(SEED_MULTIPLIER) | 1, start_level: self.level })
        } else {
            None
        };
        TitleStep { level_changed, blink, start }
    }

    /// The chosen start level (1 to 15).
    pub fn level(&self) -> (r: u32)
        ensures
            r == self.spec_level(),
            1 <= r <= 15,
    {
        proof {
            use_type_invariant(self);
        }
        self.level
    }
}

/// The screens of the program.
#[derive(Debug, Clone, Copy, PartialEq, Eq, Structural)]
pub enum Screen {
    /// Title: level choice and seed collection.
    Title,
    /// A game in progress (pause included).
    Playing,
    /// The finished game stays on screen until a button is pressed.
    GameOver,
}

/// The screen after a frame: the title starts a game on START, a game
/// ends when it tops out, and the game-over screen returns to the title on
/// a new press of any button.
pub open spec fn screen_after(screen: Screen, game_started: bool, topped_out: bool, any_new_press: bool) -> Screen {
    match screen {
        Screen::Title => if game_started {
            Screen::Playing
        } else {
            Screen::Title
        },
        Screen::Playing => if topped_out {
            Screen::GameOver
        } else {
            Screen::Playing
        },
        Screen::GameOver => if any_new_press {
            Screen::Title
        } else {
            Screen::GameOver
        },
    }
}

/// The screen to show next (see [`screen_after`]).
pub fn next_screen(screen: Screen, game_started: bool, topped_out: bool, any_new_press: bool) -> (r: Screen)
    ensures
        r == screen_after(screen, game_started, topped_out, any_new_press),
{
    match screen {
        Screen::Title => if game_started {
            Screen::Playing
        } else {
            Screen::Title
        },
        Screen::Playing => if topped_out {
            Screen::GameOver
        } else {
            Screen::Playing
        },
        Screen::GameOver => if any_new_press {
            Screen::Title
        } else {
            Screen::GameOver
        },
    }
}

/// Frames the back-to-back / combo notice stays (about two seconds).
pub const FX_FRAMES: u8 = 120;

/// What the HUD's lock notice must do after a frame.
#[derive(Debug, Clone, Copy, PartialEq, Eq, Structural)]
pub enum NoticeChange {
    /// Redraw the notice: "B2B" when `b2b`, the combo counter when `combo`
    /// is `Some` (shown from combo 1 on); blanks otherwise.
    Show { b2b: bool, combo: Option<u32> },
    /// The notice timed out: blank it.
    Clear,
    /// Leave it as it is.
    Keep,
}

/// The notice a lock shows.
pub open spec fn notice_of(lock: LockEvent) -> NoticeChange {
    NoticeChange::Show {
        b2b: lock.b2b_applied,
        combo: if lock.combo >= 1 {
            Some(lock.combo as u32)
        } else {
            None
        },
    }
}

/// The HUD's back-to-back / combo notice: shown on a lock that applies
/// back-to-back or continues a combo, cleared after 120 unpaused frames.
#[derive(Debug, Clone, Copy, PartialEq, Eq)]
pub struct LockNotice {
    timer: u8,
}

impl LockNotice {
    /// Frames left before the notice is cleared (0 when none is shown).
    pub closed spec fn spec_timer(self) -> u8 {
        self.timer
    }

    /// No notice shown.
    pub fn new() -> (r: LockNotice)
        ensures
            r.spec_timer() == 0,
    {
        LockNotice { timer: 0 }
    }

    /// One frame: a lock redraws the notice and restarts the timer (120
    /// frames if there is something to show, else 0); otherwise an unpaused
    /// frame counts the timer down and clears the notice when it runs out.
    pub fn update(&mut self, locked: Option<LockEvent>, paused: bool) -> (r: NoticeChange)
        ensures
            match locked {
                Some(lock) => r == notice_of(lock) && final(self).spec_timer() == (if lock.b2b_applied
                    || lock.combo >= 1 {
                    FX_FRAMES
                } else {
                    0
                }),
                None => if old(self).spec_timer() > 0 && !paused {
                    final(self).spec_timer() == old(self).spec_timer() - 1 && r == (if old(self).spec_timer()
                        == 1 {
                        NoticeChange::Clear
                    } else {
                        NoticeChange::Keep
                    })
                } else {
                    final(self).spec_timer() == old(self).spec_timer() && r == NoticeChange::Keep
                },
            },
    {
        match locked {
            Some(lock) => {
                let combo = if lock.combo >= 1 {
                    Some(lock.combo as u32)
                } else {
                    None
                };
                self.timer = if lock.b2b_applied || lock.combo >= 1 {
                    FX_FRAMES
                } else {
                    0
                };
                NoticeChange::Show { b2b: lock.b2b_applied, combo }
            },
            None => {
                if self.timer > 0 && !paused {
                    self.timer = self.timer - 1;
                    if self.timer == 0 {
                        NoticeChange::Clear
                    } else {
                        NoticeChange::Keep
                    }
                } else {
                    NoticeChange::Keep
                }
            },
        }
    }
}

/// Position of cell `(x, y)` in drawing order: bottom row first, left to
/// right.
pub open spec fn cell_order(c: (usize, usize)) -> int {
    c.1 * 10 + c.0
}

/// The cells where a newly computed field differs from the one drawn
/// last, in drawing order (bottom row first, left to right), each once.
pub fn changed_cells(drawn: &[[FieldCell; 10]; 20], now: &[[FieldCell; 10]; 20]) -> (r: Vec<(usize, usize)>)
    ensures
        forall|k: int| 0 <= k < r.len() ==> (#[trigger] r@[k]).0 < 10 && r@[k].1 < 20,
        forall|k: int| 0 <= k < r.len() ==> drawn@[(#[trigger] r@[k]).1 as int]@[r@[k].0 as int] != now@[r@[k].1 as int]@[r@[k].0 as int],
        forall|x: usize, y: usize|
            x < 10 && y < 20 && #[trigger] drawn@[y as int]@[x as int] != now@[y as int]@[x as int] ==> r@.contains((x, y)),
        forall|k: int, l: int| 0 <= k < l < r.len() ==> cell_order(#[trigger] r@[k]) < cell_order(#[trigger] r@[l]),
{
    let mut out: Vec<(usize, usize)> = Vec::new();
    let mut y: usize = 0;
    while y < 20
        invariant
            0 <= y <= 20,
            forall|k: int| 0 <= k < out.len() ==> (#[trigger] out@[k]).0 < 10 && out@[k].1 < y,
            forall|k: int| 0 <= k < out.len() ==> drawn@[(#[trigger] out@[k]).1 as int]@[out@[k].0 as int] != now@[out@[k].1 as int]@[out@[k].0 as int],
            forall|cx: usize, cy: usize|
                cx < 10 && cy < y && #[trigger] drawn@[cy as int]@[cx as int] != now@[cy as int]@[cx as int] ==> out@.contains((cx, cy)),
            forall|k: int, l: int| 0 <= k < l < out.len() ==> cell_order(#[trigger] out@[k]) < cell_order(#[trigger] out@[l]),
        decreases 20 - y,
    {
        let mut x: usize = 0;
        while x < 10
            invariant
                0 <= x <= 10,
                0 <= y < 20,
                forall|k: int| 0 <= k < out.len() ==> (#[trigger] out@[k]).0 < 10 && cell_order(out@[k]) < y * 10 + x && out@[k].1 <= y,
                forall|k: int| 0 <= k < out.len() ==> drawn@[(#[trigger] out@[k]).1 as int]@[out@[k].0 as int] != now@[out@[k].1 as int]@[out@[k].0 as int],
                forall|cx: usize, cy: usize|
                    cx < 10 && (cy < y || (cy == y && cx < x)) && #[trigger] drawn@[cy as int]@[cx as int] != now@[cy as int]@[cx as int] ==> out@.contains((cx, cy)),
                forall|k: int, l: int| 0 <= k < l < out.len() ==> cell_order(#[trigger] out@[k]) < cell_order(#[trigger] out@[l]),
            decreases 10 - x,
        {
            if drawn[y][x] != now[y][x] {
                let ghost before = out@;
                out.push((x, y));
                proof {
                    assert forall|cx: usize, cy: usize|
                        cx < 10 && (cy < y || (cy == y && cx < x + 1)) && #[trigger] drawn@[cy as int]@[cx as int] != now@[cy as int]@[cx as int] implies out@.contains((cx, cy)) by {
                        if cx == x && cy == y {
                            assert(out@[out@.len() - 1] == (cx, cy));
                        } else {
                            assert(before.contains((cx, cy)));
                            let k = choose|k: int| 0 <= k < before.len() && before[k] == (cx, cy);
                            assert(out@[k] == (cx, cy));
                        }
                    }
                }
            }
            x = x + 1;
        }
        y = y + 1;
    }
    out
}

/// The values the HUD shows.
#[derive(Debug, Clone, Copy, PartialEq, Eq)]
pub struct HudValues {
    /// Score.
    pub score: u32,
    /// Displayed level.
    pub level: u32,
    /// Lines cleared.
    pub lines: u32,
    /// Held piece.
    pub hold: Option<Tetromino>,
    /// The five next pieces.
    pub next: [Tetromino; 5],
}

/// Which HUD items must be redrawn.
#[derive(Debug, Clone, Copy, PartialEq, Eq, Structural)]
pub struct HudChanges {
    /// The score changed.
    pub score: bool,
    /// The level changed.
    pub level: bool,
    /// The line count changed.
    pub lines: bool,
    /// The held piece changed.
    pub hold: bool,
    /// A next piece changed.
    pub next: bool,
}

impl HudValues {
    /// The HUD values of a game.
    pub fn of(game: &Game) -> (r: HudValues)
        requires
            game.wf(),
        ensures
            r.score == game@.scoring.spec_score(),
            r.level == game@.scoring.spec_level(),
            r.lines == game@.scoring.spec_total_lines(),
            r.hold == game@.hold,
            forall|i: int| 0 <= i < 5 ==> #[trigger] r.next@[i] == game@.queue[i],
    {
        let next: [Tetromino; 5] = [game.next(0), game.next(1), game.next(2), game.next(3), game.next(4)];
        HudValues { score: game.score(), level: game.level(), lines: game.total_lines(), hold: game.hold_piece(), next }
    }
}

/// Whether two held-piece slots show the same.
fn same_hold(a: Option<Tetromino>, b: Option<Tetromino>) -> (r: bool)
    ensures
        r == (a == b),
{
    match (a, b) {
        (None, None) => true,
        (Some(x), Some(y)) => x == y,
        _ => false,
    }
}

/// What to redraw: everything the first time (no previous values), then
/// exactly the items whose value changed.
pub fn hud_changes(prev: Option<HudValues>, now: HudValues) -> (r: HudChanges)
    ensures
        match prev {
            None => r == HudChanges { score: true, level: true, lines: true, hold: true, next: true },
            Some(p) => {
                &&& r.score == (p.score != now.score)
                &&& r.level == (p.level != now.level)
                &&& r.lines == (p.lines != now.lines)
                &&& r.hold == (p.hold != now.hold)
                &&& r.next == (p.next@ != now.next@)
            },
        },
{
    match prev {
        None => HudChanges { score: true, level: true, lines: true, hold: true, next: true },
        Some(p) => {
            let mut same_next = true;
            let mut i: usize = 0;
            while i < 5
                invariant
                    0 <= i <= 5,
                    same_next == forall|j: int| 0 <= j < i ==> p.next@[j] == now.next@[j],
                decreases 5 - i,
            {
                same_next = same_next && p.next[i] == now.next[i];
                i = i + 1;
            }
            assert(same_next == (p.next@ == now.next@)) by {
                if same_next {
                    assert(p.next@ =~= now.next@);
                }
            }
            HudChanges {
                score: p.score != now.score,
                level: p.level != now.level,
                lines: p.lines != now.lines,
                hold: !same_hold(p.hold, now.hold),
                next: !same_next,
            }
        },
    }
}

} // verus!
