//! Lock delay (extended placement / move reset).
use vstd::prelude::*;

verus! {

/// Frames a grounded piece survives before it locks.
pub const LOCK_DELAY_FRAMES: u8 = 30;

/// How many times moves may reset the lock timer.
pub const LOCK_RESET_MAX: u8 = 15;

/// Lock delay state; rebuilt for every spawned piece.
#[derive(Debug, Clone, Copy, PartialEq, Eq)]
pub struct LockDelay {
    /// Frames left (only counted down while grounded).
    timer: u8,
    /// Resets used so far.
    reset_count: u8,
    /// Lowest `by` this piece has reached.
    lowest_y: i8,
    /// Whether the piece was grounded at the previous `frame_update`.
    was_grounded: bool,
}

impl LockDelay {
    #[verifier::type_invariant]
    spec fn inv(self) -> bool {
        self.timer <= 30 && self.reset_count <= 15
    }

    /// Frames left before the piece locks while grounded.
    pub closed spec fn spec_timer(self) -> u8 {
        self.timer
    }

    /// Resets used so far.
    pub closed spec fn spec_reset_count(self) -> u8 {
        self.reset_count
    }

    /// Lowest row the piece has reached.
    pub closed spec fn spec_lowest_y(self) -> i8 {
        self.lowest_y
    }

    /// Grounded state seen at the previous frame.
    pub closed spec fn spec_was_grounded(self) -> bool {
        self.was_grounded
    }

    /// The state at spawn.
    pub closed spec fn spec_new(spawn_y: i8) -> LockDelay {
        LockDelay { timer: 30, reset_count: 0, lowest_y: spawn_y, was_grounded: false }
    }

    /// Whether this frame locks the piece: it is grounded and either it just
    /// touched down with all resets used, or the timer runs out.
    pub closed spec fn frame_locks(self, grounded: bool) -> bool {
        grounded && ((!self.was_grounded && self.reset_count >= 15) || (self.timer <= 1))
    }

    /// The state after one `frame_update`.
    pub closed spec fn after_frame(self, grounded: bool) -> LockDelay {
        if !grounded || (!self.was_grounded && self.reset_count >= 15) {
            LockDelay { was_grounded: grounded, ..self }
        } else {
            LockDelay {
                was_grounded: grounded,
                timer: if self.timer == 0 { 0 } else { (self.timer - 1) as u8 },
                ..self
            }
        }
    }

    /// The state after a successful shift or rotation.
    pub closed spec fn after_move(self, grounded: bool) -> LockDelay {
        if grounded && self.reset_count < 15 {
            LockDelay { reset_count: (self.reset_count + 1) as u8, timer: 30, ..self }
        } else {
            self
        }
    }

    /// The state after a successful one-row fall to row `new_y`.
    pub closed spec fn after_fall(self, new_y: i8) -> LockDelay {
        if new_y < self.lowest_y {
            LockDelay { lowest_y: new_y, reset_count: 0, timer: 30, ..self }
        } else {
            self
        }
    }

    /// Creates the spawn state: timer 30, no resets used, lowest row `spawn_y`.
    pub fn new(spawn_y: i8) -> (r: LockDelay)
        ensures
            r == LockDelay::spec_new(spawn_y),
            r.spec_timer() == LOCK_DELAY_FRAMES,
            r.spec_reset_count() == 0,
            r.spec_lowest_y() == spawn_y,
            !r.spec_was_grounded(),
    {
        LockDelay { timer: LOCK_DELAY_FRAMES, reset_count: 0, lowest_y: spawn_y, was_grounded: false }
    }

    /// Called at the end of every frame; returns `true` when the piece must
    /// lock. While grounded the timer counts down and the piece locks when
    /// it reaches zero; while airborne the timer is held. A piece that
    /// touches down anew after all fifteen resets are used locks at once.
    pub fn frame_update(&mut self, grounded: bool) -> (r: bool)
        ensures
            r == old(self).frame_locks(grounded),
            *final(self) == old(self).after_frame(grounded),
            final(self).spec_was_grounded() == grounded,
            final(self).spec_reset_count() == old(self).spec_reset_count(),
            final(self).spec_lowest_y() == old(self).spec_lowest_y(),
            !grounded ==> final(self).spec_timer() == old(self).spec_timer() && !r,
            grounded && !old(self).spec_was_grounded() && old(self).spec_reset_count() >= LOCK_RESET_MAX
                ==> r && final(self).spec_timer() == old(self).spec_timer(),
            grounded && !(!old(self).spec_was_grounded() && old(self).spec_reset_count() >= LOCK_RESET_MAX)
                ==> final(self).spec_timer() == (if old(self).spec_timer() == 0 {
                    0
                } else {
                    old(self).spec_timer() - 1
                }) && r == (final(self).spec_timer() == 0),
    {
        proof {
            use_type_invariant(&*self);
        }
        let touched_down = grounded && !self.was_grounded;
        self.was_grounded = grounded;
        if !grounded {
            return false;
        }
        if touched_down && self.reset_count >= LOCK_RESET_MAX {
            return true;
        }
        self.timer = self.timer.saturating_sub(1);
        self.timer == 0
    }

    /// Called after a successful shift or rotation: when grounded and fewer
    /// than fifteen resets are used, one reset is spent and the timer goes
    /// back to 30. Otherwise nothing changes.
    pub fn notify_move(&mut self, grounded: bool)
        ensures
            *final(self) == old(self).after_move(grounded),
            grounded && old(self).spec_reset_count() < LOCK_RESET_MAX ==> final(self).spec_reset_count()
                == old(self).spec_reset_count() + 1 && final(self).spec_timer() == LOCK_DELAY_FRAMES,
            !(grounded && old(self).spec_reset_count() < LOCK_RESET_MAX) ==> *final(self) == *old(self),
            final(self).spec_lowest_y() == old(self).spec_lowest_y(),
            final(self).spec_was_grounded() == old(self).spec_was_grounded(),
    {
        proof {
            use_type_invariant(&*self);
        }
        if grounded && self.reset_count < LOCK_RESET_MAX {
            self.reset_count = self.reset_count + 1;
            self.timer = LOCK_DELAY_FRAMES;
        }
    }

    /// Called after a successful one-row fall: reaching a new lowest row
    /// restores the timer to 30 and the resets to zero; otherwise nothing
    /// changes.
    pub fn notify_fall(&mut self, new_y: i8)
        ensures
            *final(self) == old(self).after_fall(new_y),
            new_y < old(self).spec_lowest_y() ==> final(self).spec_lowest_y() == new_y
                && final(self).spec_reset_count() == 0 && final(self).spec_timer() == LOCK_DELAY_FRAMES
                && final(self).spec_was_grounded() == old(self).spec_was_grounded(),
            new_y >= old(self).spec_lowest_y() ==> *final(self) == *old(self),
    {
        proof {
            use_type_invariant(&*self);
        }
        if new_y < self.lowest_y {
            self.lowest_y = new_y;
            self.reset_count = 0;
            self.timer = LOCK_DELAY_FRAMES;
        }
    }

    /// Frames left before the piece locks while grounded (at most 30).
    pub fn timer(&self) -> (r: u8)
        ensures
            r == self.spec_timer(),
            r <= LOCK_DELAY_FRAMES,
    {
        proof {
            use_type_invariant(self);
        }
        self.timer
    }

    /// Resets used so far (at most 15).
    pub fn reset_count(&self) -> (r: u8)
        ensures
            r == self.spec_reset_count(),
            r <= LOCK_RESET_MAX,
    {
        proof {
            use_type_invariant(self);
        }
        self.reset_count
    }

    /// The state after `k` grounded frames in a row, with no move or fall
    /// in between.
    pub open spec fn after_grounded_frames(self, k: nat) -> LockDelay
        decreases k,
    {
        if k == 0 {
            self
        } else {
            self.after_frame(true).after_grounded_frames((k - 1) as nat)
        }
    }

    /// Grounded frames without resets count the timer down one by one.
    proof fn lemma_grounded_countdown(self, k: nat)
        requires
            self.reset_count == 0,
            k <= self.timer,
        ensures
            self.after_grounded_frames(k) == (if k == 0 {
                self
            } else {
                LockDelay { timer: (self.timer - k) as u8, was_grounded: true, ..self }
            }),
        decreases k,
    {
        if k > 0 {
            let next = self.after_frame(true);
            assert(next == LockDelay { timer: (self.timer - 1) as u8, was_grounded: true, ..self });
            next.lemma_grounded_countdown((k - 1) as nat);
        }
    }
}

/// With the timer full, a frame never locks while fewer than fifteen
/// resets are used; a move or a fall keeps the timer full and uses at most
/// one more reset. A fresh lock delay has a full timer and no reset used.
pub proof fn lemma_full_timer(l: LockDelay, grounded: bool, new_y: i8, spawn_y: i8)
    ensures
        LockDelay::spec_new(spawn_y).spec_timer() == LOCK_DELAY_FRAMES,
        LockDelay::spec_new(spawn_y).spec_reset_count() == 0,
        l.spec_timer() == LOCK_DELAY_FRAMES && l.spec_reset_count() < LOCK_RESET_MAX ==> !l.frame_locks(grounded),
        l.spec_timer() == LOCK_DELAY_FRAMES ==> l.after_move(grounded).spec_timer() == LOCK_DELAY_FRAMES
            && l.after_move(grounded).spec_reset_count() <= l.spec_reset_count() + 1,
        l.spec_timer() == LOCK_DELAY_FRAMES ==> l.after_fall(new_y).spec_timer() == LOCK_DELAY_FRAMES
            && l.after_fall(new_y).spec_reset_count() <= l.spec_reset_count(),
{
}

/// Move reset: a successful shift or rotation that leaves the piece
/// grounded, with fewer than fifteen resets used, spends one reset and puts
/// the timer back at the full delay; otherwise it changes nothing.
pub proof fn lemma_move_reset(l: LockDelay, grounded: bool)
    ensures
        grounded && l.spec_reset_count() < LOCK_RESET_MAX ==> {
            &&& l.after_move(grounded).spec_timer() == LOCK_DELAY_FRAMES
            &&& l.after_move(grounded).spec_reset_count() == l.spec_reset_count() + 1
            &&& l.after_move(grounded).spec_lowest_y() == l.spec_lowest_y()
            &&& l.after_move(grounded).spec_was_grounded() == l.spec_was_grounded()
        },
        !(grounded && l.spec_reset_count() < LOCK_RESET_MAX) ==> l.after_move(grounded) == l,
{
}

/// A freshly spawned piece that stays grounded and does not move survives
/// 29 frames and locks on the 30th.
pub proof fn lemma_locks_on_thirtieth_grounded_frame(spawn_y: i8, k: nat)
    requires
        k < 30,
    ensures
        LockDelay::spec_new(spawn_y).after_grounded_frames(k).frame_locks(true) == (k == 29),
{
    LockDelay::spec_new(spawn_y).lemma_grounded_countdown(k);
}

impl LockDelay {

    /// Lowest row the piece has reached.
    pub fn lowest_y(&self) -> (r: i8)
        ensures
            r == self.spec_lowest_y(),
    {
        self.lowest_y
    }

    /// Whether the piece was grounded at the previous frame.
    pub fn was_grounded(&self) -> (r: bool)
        ensures
            r == self.spec_was_grounded(),
    {
        self.was_grounded
    }
}

} // verus!
