//! Scoring, back-to-back, combo and level progression.
use vstd::prelude::*;

use crate::tspin::TSpin;

verus! {

/// Lines needed for one level.
const LINES_PER_LEVEL: u32 = 10;

/// Level cap for gravity and score multiplier.
const LEVEL_MAX: u32 = 20;

/// A "difficult" clear: a Tetris, or a T-Spin / Mini that clears lines.
pub open spec fn is_hard_clear(lines_cleared: u8, tspin: TSpin) -> bool {
    lines_cleared == 4 || (lines_cleared > 0 && tspin != TSpin::NoSpin)
}

/// Base points before the level multiplier; combinations that cannot occur
/// (such as a Mini Triple) score 0.
pub open spec fn base_points_of(lines_cleared: u8, tspin: TSpin) -> u32 {
    match (tspin, lines_cleared) {
        (TSpin::NoSpin, 1) => 100,
        (TSpin::NoSpin, 2) => 300,
        (TSpin::NoSpin, 3) => 500,
        (TSpin::NoSpin, 4) => 800,
        (TSpin::Mini, 0) => 100,
        (TSpin::Mini, 1) => 200,
        (TSpin::Mini, 2) => 400,
        (TSpin::Full, 0) => 400,
        (TSpin::Full, 1) => 800,
        (TSpin::Full, 2) => 1200,
        (TSpin::Full, 3) => 1600,
        _ => 0,
    }
}

/// Perfect-clear bonus before the level multiplier; a back-to-back Tetris
/// perfect clear gets 3200 instead of 2000.
pub open spec fn perfect_clear_bonus_of(lines_cleared: u8, b2b_applied: bool) -> u32 {
    if lines_cleared == 1 {
        800
    } else if lines_cleared == 2 {
        1200
    } else if lines_cleared == 3 {
        1800
    } else if lines_cleared == 4 {
        if b2b_applied {
            3200
        } else {
            2000
        }
    } else {
        0
    }
}

/// Score, back-to-back chain, combo and level state.
#[derive(Debug, Clone, Copy, PartialEq, Eq, Structural)]
pub struct Scoring {
    score: u32,
    start_level: u32,
    total_lines: u32,
    /// Back-to-back chain active: no plain clear since the last difficult one.
    b2b: bool,
    /// Combo counter, -1 when no combo.
    combo: i16,
}

impl Scoring {
    #[verifier::type_invariant]
    spec fn inv(self) -> bool {
        &&& self.start_level + self.total_lines / 10 <= u32::MAX
        &&& self.combo >= -1
    }

    /// Current score.
    pub closed spec fn spec_score(self) -> u32 {
        self.score
    }

    /// Starting level.
    pub closed spec fn spec_start_level(self) -> u32 {
        self.start_level
    }

    /// Lines cleared so far.
    pub closed spec fn spec_total_lines(self) -> u32 {
        self.total_lines
    }

    /// Whether the back-to-back chain is active.
    pub closed spec fn spec_b2b(self) -> bool {
        self.b2b
    }

    /// Combo counter.
    pub closed spec fn spec_combo(self) -> i16 {
        self.combo
    }

    /// Displayed level (fixed goal): start level plus one per ten lines.
    pub open spec fn spec_level(self) -> int {
        self.spec_start_level() + self.spec_total_lines() / 10
    }

    /// Level used for gravity and the score multiplier: capped at 20.
    pub open spec fn spec_effective_level(self) -> int {
        if self.spec_level() > 20 {
            20
        } else {
            self.spec_level()
        }
    }

    /// Whether a clear of `lines_cleared` with `tspin` gets the x1.5 bonus.
    pub open spec fn b2b_applies_to(self, lines_cleared: u8, tspin: TSpin) -> bool {
        is_hard_clear(lines_cleared, tspin) && self.spec_b2b()
    }

    /// Combo counter after a lock: +1 with a clear, -1 without.
    pub open spec fn combo_after(self, lines_cleared: u8) -> int {
        if lines_cleared > 0 {
            self.spec_combo() + 1
        } else {
            -1
        }
    }

    /// Back-to-back chain after a lock: a difficult clear keeps or starts it,
    /// a plain clear ends it, a lock without clear leaves it as it is.
    pub open spec fn b2b_after(self, lines_cleared: u8, tspin: TSpin) -> bool {
        if is_hard_clear(lines_cleared, tspin) {
            true
        } else if lines_cleared > 0 {
            false
        } else {
            self.spec_b2b()
        }
    }

    /// Points of one lock: `floor(base x b2b) x level + 50 x combo x level +
    /// perfect-clear bonus x level`, with the level before the lines count.
    pub open spec fn lock_points(self, lines_cleared: u8, tspin: TSpin, perfect_clear: bool) -> int {
        let level = self.spec_effective_level();
        let applied = self.b2b_applies_to(lines_cleared, tspin);
        let base = base_points_of(lines_cleared, tspin);
        let base = if applied {
            base * 3 / 2
        } else {
            base as int
        };
        let combo = self.combo_after(lines_cleared);
        base * level + (if lines_cleared > 0 && combo >= 1 {
            50 * combo * level
        } else {
            0
        }) + (if perfect_clear {
            perfect_clear_bonus_of(lines_cleared, applied) * level
        } else {
            0
        })
    }

    /// The counters stay representable after this lock.
    pub open spec fn can_lock(self, lines_cleared: u8, tspin: TSpin, perfect_clear: bool) -> bool {
        &&& lines_cleared > 0 ==> self.spec_combo() < i16::MAX
        &&& self.spec_score() + self.lock_points(lines_cleared, tspin, perfect_clear) <= u32::MAX
        &&& self.spec_start_level() + (self.spec_total_lines() + lines_cleared) / 10 <= u32::MAX
        &&& self.spec_total_lines() + lines_cleared <= u32::MAX
    }

    /// The state at the start of a game.
    pub closed spec fn spec_new(start_level: u32) -> Scoring {
        Scoring { score: 0, start_level, total_lines: 0, b2b: false, combo: -1i16 }
    }

    /// The state after one lock.
    pub closed spec fn after_lock(self, lines_cleared: u8, tspin: TSpin, perfect_clear: bool) -> Scoring {
        Scoring {
            score: (self.score + self.lock_points(lines_cleared, tspin, perfect_clear)) as u32,
            start_level: self.start_level,
            total_lines: (self.total_lines + lines_cleared) as u32,
            b2b: self.b2b_after(lines_cleared, tspin),
            combo: self.combo_after(lines_cleared) as i16,
        }
    }

    /// The state after adding `points` drop points.
    pub closed spec fn after_drop_points(self, points: int) -> Scoring {
        Scoring { score: (self.score + points) as u32, ..self }
    }

    /// A lock adds its points and its lines, keeps the start level and moves
    /// the back-to-back chain and the combo counter on.
    pub proof fn lemma_after_lock(self, lines_cleared: u8, tspin: TSpin, perfect_clear: bool)
        requires
            self.spec_combo() >= -1,
            self.can_lock(lines_cleared, tspin, perfect_clear),
        ensures
            self.after_lock(lines_cleared, tspin, perfect_clear).spec_score() == self.spec_score()
                + self.lock_points(lines_cleared, tspin, perfect_clear),
            self.after_lock(lines_cleared, tspin, perfect_clear).spec_total_lines() == self.spec_total_lines()
                + lines_cleared,
            self.after_lock(lines_cleared, tspin, perfect_clear).spec_start_level() == self.spec_start_level(),
            self.after_lock(lines_cleared, tspin, perfect_clear).spec_b2b() == self.b2b_after(lines_cleared, tspin),
            self.after_lock(lines_cleared, tspin, perfect_clear).spec_combo() == self.combo_after(lines_cleared),
    {
        self.lemma_lock_points_bound(lines_cleared, tspin, perfect_clear);
    }

    /// Drop points add to the score and change nothing else; two additions
    /// make one.
    pub proof fn lemma_after_drop_points(self, p: int, q: int)
        requires
            0 <= p,
            0 <= q,
            self.spec_score() + p + q <= u32::MAX,
        ensures
            self.after_drop_points(p).spec_score() == self.spec_score() + p,
            self.after_drop_points(p).spec_start_level() == self.spec_start_level(),
            self.after_drop_points(p).spec_total_lines() == self.spec_total_lines(),
            self.after_drop_points(p).spec_b2b() == self.spec_b2b(),
            self.after_drop_points(p).spec_combo() == self.spec_combo(),
            self.after_drop_points(p).after_drop_points(q) == self.after_drop_points(p + q),
            self.after_drop_points(0) == self,
    {
    }

    /// The back-to-back chain. Only a difficult clear (a Tetris, or a T-Spin
    /// or Mini that clears lines) counts: a plain clear of one to three
    /// lines never gets the x1.5 bonus, ends the chain and scores 100, 300
    /// or 500 points per level; a Tetris scores 800 per level, 1200 when the
    /// chain is on, and keeps the chain on, as does any T-Spin clear; a lock
    /// without a clear leaves the chain as it is and ends the combo. The
    /// combo adds 50 x combo per level from the second clear in a row.
    pub proof fn lemma_back_to_back(self, lines_cleared: u8, tspin: TSpin)
        ensures
            ({
                let level = self.spec_effective_level();
                let next = self.after_lock(lines_cleared, tspin, false);
                let c = self.spec_combo() + 1;
                let combo_points = if c >= 1 { 50 * c * level } else { 0 };
                &&& (1 <= lines_cleared <= 3 && tspin == TSpin::NoSpin) ==> {
                    &&& !next.spec_b2b()
                    &&& self.lock_points(lines_cleared, tspin, false) == (if lines_cleared == 1 {
                        100int
                    } else if lines_cleared == 2 {
                        300
                    } else {
                        500
                    }) * level + combo_points
                }
                &&& (lines_cleared == 4 && tspin == TSpin::NoSpin) ==> {
                    &&& next.spec_b2b()
                    &&& self.lock_points(4, TSpin::NoSpin, false) == (if self.spec_b2b() {
                        1200int
                    } else {
                        800
                    }) * level + combo_points
                }
                &&& (lines_cleared > 0 && tspin != TSpin::NoSpin) ==> next.spec_b2b()
                &&& lines_cleared == 0 ==> next.spec_b2b() == self.spec_b2b() && next.spec_combo() == -1
            }),
    {
    }

    /// After a plain clear of one to three lines the chain is off, so the
    /// next Tetris scores 800 per level (plus the combo), not 1200.
    pub proof fn lemma_plain_clear_then_tetris(self, lines_cleared: u8)
        requires
            1 <= lines_cleared <= 3,
            self.spec_combo() >= -1,
            self.can_lock(lines_cleared, TSpin::NoSpin, false),
        ensures
            ({
                let next = self.after_lock(lines_cleared, TSpin::NoSpin, false);
                let level = next.spec_effective_level();
                &&& !next.spec_b2b()
                &&& next.lock_points(4, TSpin::NoSpin, false) == 800 * level + 50 * (self.spec_combo() + 2) * level
            }),
    {
        self.lemma_after_lock(lines_cleared, TSpin::NoSpin, false);
    }

    /// One lock scores at most `112000 + 1000 x (combo + 1)` points.
    pub proof fn lemma_lock_points_bound(self, lines_cleared: u8, tspin: TSpin, perfect_clear: bool)
        requires
            self.spec_combo() >= -1,
        ensures
            0 <= self.lock_points(lines_cleared, tspin, perfect_clear) <= 112000 + 1000 * (self.spec_combo() + 1),
    {
        let level = self.spec_effective_level();
        let applied = self.b2b_applies_to(lines_cleared, tspin);
        let base0 = base_points_of(lines_cleared, tspin);
        let base: int = if applied {
            base0 * 3 / 2
        } else {
            base0 as int
        };
        let combo = self.combo_after(lines_cleared);
        assert(0 <= level <= 20);
        assert(0 <= base <= 2400);
        assert(0 <= base * level <= 48000) by (nonlinear_arith)
            requires
                0 <= base <= 2400,
                0 <= level <= 20,
        ;
        if lines_cleared > 0 && combo >= 1 {
            assert(50 * combo * level <= 1000 * combo) by (nonlinear_arith)
                requires
                    combo >= 1,
                    0 <= level <= 20,
            ;
            assert(50 * combo * level >= 0) by (nonlinear_arith)
                requires
                    combo >= 1,
                    0 <= level <= 20,
            ;
        }
        let pcb = perfect_clear_bonus_of(lines_cleared, applied);
        assert(0 <= pcb * level <= 64000) by (nonlinear_arith)
            requires
                0 <= pcb <= 3200,
                0 <= level <= 20,
        ;
    }

    /// Starts scoring at `start_level` (chosen 1 to 15 on the title screen).
    pub fn new(start_level: u32) -> (r: Scoring)
        ensures
            r == Scoring::spec_new(start_level),
            r.spec_score() == 0,
            r.spec_start_level() == start_level,
            r.spec_total_lines() == 0,
            !r.spec_b2b(),
            r.spec_combo() == -1,
    {
        Scoring { score: 0, start_level, total_lines: 0, b2b: false, combo: -1 }
    }

    /// Current score.
    pub fn score(&self) -> (r: u32)
        ensures
            r == self.spec_score(),
    {
        self.score
    }

    /// The level the game started at.
    pub fn start_level(&self) -> (r: u32)
        ensures
            r == self.spec_start_level(),
    {
        self.start_level
    }

    /// Lines cleared so far.
    pub fn total_lines(&self) -> (r: u32)
        ensures
            r == self.spec_total_lines(),
    {
        self.total_lines
    }

    /// Whether the back-to-back chain is active.
    pub fn b2b(&self) -> (r: bool)
        ensures
            r == self.spec_b2b(),
    {
        self.b2b
    }

    /// Combo counter; -1 means no combo.
    pub fn combo(&self) -> (r: i16)
        ensures
            r == self.spec_combo(),
            r >= -1,
    {
        proof {
            use_type_invariant(self);
        }
        self.combo
    }

    /// Displayed level: `start_level + total_lines / 10`, without cap.
    pub fn level(&self) -> (r: u32)
        ensures
            r == self.spec_level(),
    {
        proof {
            use_type_invariant(self);
        }
        self.start_level + self.total_lines / LINES_PER_LEVEL
    }

    /// Level for gravity and the score multiplier: capped at 20.
    pub fn effective_level(&self) -> (r: u32)
        ensures
            r == self.spec_effective_level(),
            1 <= r || self.spec_level() < 1,
            r <= 20,
    {
        let level = self.level();
        if level > LEVEL_MAX {
            LEVEL_MAX
        } else {
            level
        }
    }

    /// Whether a clear of `lines_cleared` with `tspin` gets the back-to-back
    /// x1.5 bonus right now.
    pub fn b2b_applies(&self, lines_cleared: u8, tspin: TSpin) -> (r: bool)
        ensures
            r == self.b2b_applies_to(lines_cleared, tspin),
    {
        let is_hard_clear = lines_cleared == 4 || (lines_cleared > 0 && !matches!(tspin, TSpin::NoSpin));
        is_hard_clear && self.b2b
    }

    /// Scores one lock and returns the points awarded. The level multiplier
    /// is the effective level before the cleared lines are counted. Drop
    /// points are added separately.
    pub fn on_lock(&mut self, lines_cleared: u8, tspin: TSpin, perfect_clear: bool) -> (r: u32)
        requires
            old(self).can_lock(lines_cleared, tspin, perfect_clear),
        ensures
            r == old(self).lock_points(lines_cleared, tspin, perfect_clear),
            *final(self) == old(self).after_lock(lines_cleared, tspin, perfect_clear),
            final(self).spec_score() == old(self).spec_score() + r,
            final(self).spec_total_lines() == old(self).spec_total_lines() + lines_cleared,
            final(self).spec_start_level() == old(self).spec_start_level(),
            final(self).spec_b2b() == old(self).b2b_after(lines_cleared, tspin),
            final(self).spec_combo() == old(self).combo_after(lines_cleared),
    {
        proof {
            use_type_invariant(&*self);
        }
        let level = self.effective_level();
        let is_hard_clear = lines_cleared == 4 || (lines_cleared > 0 && !matches!(tspin, TSpin::NoSpin));
        let b2b_applied = is_hard_clear && self.b2b;
        let base = base_points(lines_cleared, tspin);
        let base = if b2b_applied {
            base * 3 / 2
        } else {
            base
        };
        let mut points = base * level;
        if lines_cleared > 0 {
            self.combo = self.combo + 1;
            if self.combo >= 1 {
                assert(self.combo <= 32767);
                let c = self.combo as u32;
                assert(50 * c * level <= 50 * 32767 * 20) by (nonlinear_arith)
                    requires
                        c <= 32767,
                        level <= 20,
                ;
                points = points + 50 * c * level;
            }
        } else {
            self.combo = -1;
        }
        if perfect_clear {
            points = points + perfect_clear_bonus(lines_cleared, b2b_applied) * level;
        }
        if is_hard_clear {
            self.b2b = true;
        } else if lines_cleared > 0 {
            self.b2b = false;
        }
        self.total_lines = self.total_lines + lines_cleared as u32;
        self.score = self.score + points;
        points
    }

    /// Soft-drop points: one per cell, no level multiplier.
    pub fn add_soft_drop_cells(&mut self, cells: u32)
        requires
            old(self).spec_score() + cells <= u32::MAX,
        ensures
            *final(self) == old(self).after_drop_points(cells as int),
            final(self).spec_score() == old(self).spec_score() + cells,
            final(self).spec_total_lines() == old(self).spec_total_lines(),
            final(self).spec_start_level() == old(self).spec_start_level(),
            final(self).spec_combo() == old(self).spec_combo(),
            final(self).spec_b2b() == old(self).spec_b2b(),
    {
        proof {
            use_type_invariant(&*self);
        }
        self.score = self.score + cells;
    }

    /// Hard-drop points: two per cell, at most 40 (20 cells), no level
    /// multiplier.
    pub fn add_hard_drop_cells(&mut self, cells: u32)
        requires
            old(self).spec_score() + 2 * (if cells < 20 { cells as int } else { 20 }) <= u32::MAX,
        ensures
            *final(self) == old(self).after_drop_points(2 * (if cells < 20 { cells as int } else { 20 })),
            final(self).spec_score() == old(self).spec_score() + 2 * (if cells < 20 { cells as int } else { 20 }),
            final(self).spec_total_lines() == old(self).spec_total_lines(),
            final(self).spec_start_level() == old(self).spec_start_level(),
            final(self).spec_combo() == old(self).spec_combo(),
            final(self).spec_b2b() == old(self).spec_b2b(),
    {
        proof {
            use_type_invariant(&*self);
        }
        let capped = if cells < 20 {
            cells
        } else {
            20
        };
        self.score = self.score + 2 * capped;
    }
}

/// Base score table (before the level multiplier).
fn base_points(lines_cleared: u8, tspin: TSpin) -> (r: u32)
    ensures
        r == base_points_of(lines_cleared, tspin),
{
    match (tspin, lines_cleared) {
        (TSpin::NoSpin, 1) => 100,
        (TSpin::NoSpin, 2) => 300,
        (TSpin::NoSpin, 3) => 500,
        (TSpin::NoSpin, 4) => 800,
        (TSpin::Mini, 0) => 100,
        (TSpin::Mini, 1) => 200,
        (TSpin::Mini, 2) => 400,
        (TSpin::Full, 0) => 400,
        (TSpin::Full, 1) => 800,
        (TSpin::Full, 2) => 1200,
        (TSpin::Full, 3) => 1600,
        _ => 0,
    }
}

/// Perfect-clear bonus table (before the level multiplier).
fn perfect_clear_bonus(lines_cleared: u8, b2b_applied: bool) -> (r: u32)
    ensures
        r == perfect_clear_bonus_of(lines_cleared, b2b_applied),
{
    match lines_cleared {
        1 => 800,
        2 => 1200,
        3 => 1800,
        4 => {
            if b2b_applied {
                3200
            } else {
                2000
            }
        },
        _ => 0,
    }
}

} // verus!
