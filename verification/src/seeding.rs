//! The seeding loop of a plate.
//!
//! The robot worker runs the loop: it asks [`SeedRun::next`] what to do,
//! does it (homing, seeding a pot, sleeping while paused, reporting to the
//! operator) and hands the result back with the next call. The decisions
//! (pot order, progress counts, pause and abort handling) are made here.

use crate::control::{ControlState, SeedingControl};
use vstd::prelude::*;

verus! {

/// A 2D integer coordinate, such as the number of pots of a plate along X
/// and Y.
#[derive(Debug, Clone, Copy)]
pub struct IntCoord2D {
    /// Number of items in the X direction.
    pub x: i32,
    /// Number of items in the Y direction.
    pub y: i32,
}

/// How a seeding job ended when it did not fail.
#[derive(Debug, Clone, Copy, PartialEq, Eq, Structural)]
pub enum SeedOutcome {
    /// Every pot of the plate was processed.
    Completed,
    /// The job was stopped by the user before finishing.
    Aborted,
}

/// Why a seeding job failed.
#[derive(Debug, Clone, Copy, PartialEq, Eq, Structural)]
pub enum SeedFailure {
    /// The homing that starts the job failed.
    Homing,
    /// Seeding a pot failed.
    Pot,
}

/// What the worker must do next for a seeding job.
#[derive(Debug, Clone, Copy, PartialEq, Eq)]
pub enum SeedAction {
    /// Home the robot (rotation axis, then `G28`); answer whether it worked.
    Home,
    /// Tell the operator that the loop now waits on a pause (`true`) or has
    /// left that wait (`false`).
    AnnouncePause(bool),
    /// Sleep 100 ms, then ask again.
    WaitWhilePaused,
    /// Seed the pot at column `x`, row `y` of the grid; answer whether it
    /// worked.
    SeedPot { x: i32, y: i32 },
    /// Report that `done` of the `total` pots are seeded.
    Progress { done: i32, total: i32 },
    /// The job is over.
    Finish(Result<SeedOutcome, SeedFailure>),
}

/// Where a seeding job stands.
#[derive(Debug, Clone, Copy, PartialEq, Eq)]
pub enum SeedStage {
    /// Not started.
    Start,
    /// Homing was requested.
    Homing,
    /// The pause was announced; next comes the first wait.
    Parked,
    /// Waiting while paused.
    Waiting,
    /// The end of the pause was announced; next comes the abort check.
    Resuming,
    /// The current pot is being seeded.
    Seeding,
    /// Progress for the current pot was reported.
    Reporting,
    /// The job is over with this result.
    Finished(Result<SeedOutcome, SeedFailure>),
}

/// The abstract state of a [`SeedRun`].
pub struct SeedState {
    /// Where the job stands.
    pub stage: SeedStage,
    /// The id the operator side gave the job.
    pub job_id: u64,
    /// Number of pots along X (columns).
    pub nb_x: i32,
    /// Number of pots along Y (rows).
    pub nb_y: i32,
    /// Column of the current pot.
    pub x: i32,
    /// Row of the current pot.
    pub y: i32,
    /// Number of pots seeded so far.
    pub done: i32,
}

/// The number of pots of a `nb_x` by `nb_y` grid, as the loop counts it.
pub open spec fn pot_count(nb_x: i32, nb_y: i32) -> int {
    nb_x * nb_y
}

/// The rank of pot (`x`, `y`) in the seeding order: columns one after the
/// other, each one row by row.
pub open spec fn pot_rank(nb_y: i32, x: i32, y: i32) -> int {
    x * nb_y + y
}

impl SeedState {
    /// The state invariant: the grid's pot count fits an `i32`, and inside
    /// the loop the current pot lies in the grid and the count of seeded
    /// pots is its rank (plus one once it is seeded).
    pub open spec fn inv(self) -> bool {
        &&& i32::MIN <= pot_count(self.nb_x, self.nb_y) <= i32::MAX
        &&& self.in_loop() ==> {
            &&& 0 <= self.x < self.nb_x
            &&& 0 <= self.y < self.nb_y
            &&& self.done == pot_rank(self.nb_y, self.x, self.y) + if self.stage
                == SeedStage::Reporting {
                1int
            } else {
                0int
            }
        }
    }

    /// The job is inside the pot loop.
    pub open spec fn in_loop(self) -> bool {
        match self.stage {
            SeedStage::Parked | SeedStage::Waiting | SeedStage::Resuming | SeedStage::Seeding
            | SeedStage::Reporting => true,
            _ => false,
        }
    }

    /// The operator was told that the loop waits on a pause.
    pub open spec fn pause_shown(self) -> bool {
        self.stage == SeedStage::Parked || self.stage == SeedStage::Waiting
    }

    /// The state with `stage`.
    pub open spec fn at(self, stage: SeedStage) -> SeedState {
        SeedState { stage, ..self }
    }

    /// Ends the job with `result`.
    pub open spec fn finish(self, result: Result<SeedOutcome, SeedFailure>) -> (
        SeedState,
        SeedAction,
    ) {
        (self.at(SeedStage::Finished(result)), SeedAction::Finish(result))
    }

    /// The abort check before the current pot: stop if the job is aborted,
    /// else seed the pot.
    pub open spec fn decide(self, control: ControlState) -> (SeedState, SeedAction) {
        if control.aborts(self.job_id) {
            self.finish(Ok(SeedOutcome::Aborted))
        } else {
            (self.at(SeedStage::Seeding), SeedAction::SeedPot { x: self.x, y: self.y })
        }
    }

    /// The check before the current pot: wait while paused and not aborted
    /// (announcing the pause once), announce the end of an announced pause,
    /// then decide.
    pub open spec fn check(self, announced: bool, control: ControlState) -> (
        SeedState,
        SeedAction,
    ) {
        if control.paused && !control.aborts(self.job_id) {
            if announced {
                (self.at(SeedStage::Waiting), SeedAction::WaitWhilePaused)
            } else {
                (self.at(SeedStage::Parked), SeedAction::AnnouncePause(true))
            }
        } else if announced {
            (self.at(SeedStage::Resuming), SeedAction::AnnouncePause(false))
        } else {
            self.decide(control)
        }
    }

    /// One step of the job: what the worker must do after the previous
    /// action, whose success is `ok`, with the controls as they are now.
    pub open spec fn step(self, control: ControlState, ok: bool) -> (SeedState, SeedAction) {
        match self.stage {
            SeedStage::Start => (self.at(SeedStage::Homing), SeedAction::Home),
            SeedStage::Homing => if !ok {
                self.finish(Err(SeedFailure::Homing))
            } else if self.nb_x <= 0 || self.nb_y <= 0 {
                self.finish(Ok(SeedOutcome::Completed))
            } else {
                SeedState { x: 0, y: 0, done: 0, ..self }.check(false, control)
            },
            SeedStage::Parked => (self.at(SeedStage::Waiting), SeedAction::WaitWhilePaused),
            SeedStage::Waiting => self.check(true, control),
            SeedStage::Resuming => self.decide(control),
            SeedStage::Seeding => if !ok {
                self.finish(Err(SeedFailure::Pot))
            } else {
                (
                    SeedState { stage: SeedStage::Reporting, done: (self.done + 1) as i32, ..self },
                    SeedAction::Progress {
                        done: (self.done + 1) as i32,
                        total: (self.nb_x * self.nb_y) as i32,
                    },
                )
            },
            SeedStage::Reporting => if self.y + 1 < self.nb_y {
                SeedState { y: (self.y + 1) as i32, ..self }.check(false, control)
            } else if self.x + 1 < self.nb_x {
                SeedState { x: (self.x + 1) as i32, y: 0, ..self }.check(false, control)
            } else {
                self.finish(Ok(SeedOutcome::Completed))
            },
            SeedStage::Finished(result) => self.finish(result),
        }
    }
}

/// A seeding job over a grid of pots.
pub struct SeedRun {
    stage: SeedStage,
    job_id: u64,
    nb_x: i32,
    nb_y: i32,
    x: i32,
    y: i32,
    done: i32,
}

impl View for SeedRun {
    type V = SeedState;

    closed spec fn view(&self) -> SeedState {
        SeedState {
            stage: self.stage,
            job_id: self.job_id,
            nb_x: self.nb_x,
            nb_y: self.nb_y,
            x: self.x,
            y: self.y,
            done: self.done,
        }
    }
}

proof fn lemma_rank_below_count(nb_x: i32, nb_y: i32, x: i32, y: i32)
    requires
        0 <= x < nb_x,
        0 <= y < nb_y,
    ensures
        0 <= pot_rank(nb_y, x, y) < pot_count(nb_x, nb_y),
        pot_rank(nb_y, x, y) + 1 == pot_rank(nb_y, x, (y + 1) as i32),
        y + 1 == nb_y ==> pot_rank(nb_y, x, y) + 1 == pot_rank(nb_y, (x + 1) as i32, 0),
        x + 1 == nb_x && y + 1 == nb_y ==> pot_rank(nb_y, x, y) + 1 == pot_count(nb_x, nb_y),
{
    assert(0 <= x * nb_y) by (nonlinear_arith)
        requires
            0 <= x,
            0 <= nb_y,
    ;
    assert(x * nb_y + y < nb_x * nb_y) by (nonlinear_arith)
        requires
            0 <= x < nb_x,
            0 <= y < nb_y,
    ;
    assert((x + 1) * nb_y == x * nb_y + nb_y) by (nonlinear_arith);
}

impl SeedRun {
    /// Starts a job with id `job_id` over a grid of `nb_pot.x` columns and
    /// `nb_pot.y` rows. The grid's pot count must fit an `i32`.
    pub fn new(nb_pot: IntCoord2D, job_id: u64) -> (run: SeedRun)
        requires
            i32::MIN <= pot_count(nb_pot.x, nb_pot.y) <= i32::MAX,
        ensures
            run@ == (SeedState {
                stage: SeedStage::Start,
                job_id,
                nb_x: nb_pot.x,
                nb_y: nb_pot.y,
                x: 0,
                y: 0,
                done: 0,
            }),
            run@.inv(),
    {
        SeedRun {
            stage: SeedStage::Start,
            job_id,
            nb_x: nb_pot.x,
            nb_y: nb_pot.y,
            x: 0,
            y: 0,
            done: 0,
        }
    }

    fn finish(&mut self, result: Result<SeedOutcome, SeedFailure>) -> (action: SeedAction)
        ensures
            (final(self)@, action) == old(self)@.finish(result),
    {
        self.stage = SeedStage::Finished(result);
        SeedAction::Finish(result)
    }

    fn decide(&mut self, control: &SeedingControl) -> (action: SeedAction)
        ensures
            (final(self)@, action) == old(self)@.decide(control@),
    {
        if control.should_abort(self.job_id) {
            self.finish(Ok(SeedOutcome::Aborted))
        } else {
            self.stage = SeedStage::Seeding;
            SeedAction::SeedPot { x: self.x, y: self.y }
        }
    }

    fn check(&mut self, announced: bool, control: &SeedingControl) -> (action: SeedAction)
        ensures
            (final(self)@, action) == old(self)@.check(announced, control@),
    {
        if control.is_paused() && !control.should_abort(self.job_id) {
            if announced {
                self.stage = SeedStage::Waiting;
                SeedAction::WaitWhilePaused
            } else {
                self.stage = SeedStage::Parked;
                SeedAction::AnnouncePause(true)
            }
        } else if announced {
            self.stage = SeedStage::Resuming;
            SeedAction::AnnouncePause(false)
        } else {
            self.decide(control)
        }
    }

    /// Decides what the worker must do next. `ok` tells whether the action
    /// returned by the previous call succeeded (it only matters after
    /// [`SeedAction::Home`] and [`SeedAction::SeedPot`]); `control` holds
    /// the pause and abort requests as they are now.
    pub fn next(&mut self, control: &SeedingControl, ok: bool) -> (action: SeedAction)
        requires
            old(self)@.inv(),
        ensures
            (final(self)@, action) == old(self)@.step(control@, ok),
            final(self)@.inv(),
    {
        match self.stage {
            SeedStage::Start => {
                self.stage = SeedStage::Homing;
                SeedAction::Home
            },
            SeedStage::Homing => {
                if !ok {
                    self.finish(Err(SeedFailure::Homing))
                } else if self.nb_x <= 0 || self.nb_y <= 0 {
                    self.finish(Ok(SeedOutcome::Completed))
                } else {
                    self.x = 0;
                    self.y = 0;
                    self.done = 0;
                    proof {
                        lemma_rank_below_count(self.nb_x, self.nb_y, 0, 0);
                    }
                    self.check(false, control)
                }
            },
            SeedStage::Parked => {
                self.stage = SeedStage::Waiting;
                SeedAction::WaitWhilePaused
            },
            SeedStage::Waiting => self.check(true, control),
            SeedStage::Resuming => self.decide(control),
            SeedStage::Seeding => {
                if !ok {
                    self.finish(Err(SeedFailure::Pot))
                } else {
                    proof {
                        lemma_rank_below_count(self.nb_x, self.nb_y, self.x, self.y);
                    }
                    self.done = self.done + 1;
                    self.stage = SeedStage::Reporting;
                    SeedAction::Progress { done: self.done, total: self.nb_x * self.nb_y }
                }
            },
            SeedStage::Reporting => {
                proof {
                    lemma_rank_below_count(self.nb_x, self.nb_y, self.x, self.y);
                }
                if self.y + 1 < self.nb_y {
                    self.y = self.y + 1;
                    self.check(false, control)
                } else if self.x + 1 < self.nb_x {
                    self.x = self.x + 1;
                    self.y = 0;
                    self.check(false, control)
                } else {
                    self.finish(Ok(SeedOutcome::Completed))
                }
            },
            SeedStage::Finished(result) => self.finish(result),
        }
    }
}

/// Every step keeps the state invariant.
pub proof fn lemma_step_keeps_invariant(s: SeedState, control: ControlState, ok: bool)
    requires
        s.inv(),
    ensures
        s.step(control, ok).0.inv(),
        s.step(control, ok).0.job_id == s.job_id,
        s.step(control, ok).0.nb_x == s.nb_x,
        s.step(control, ok).0.nb_y == s.nb_y,
{
    if s.in_loop() {
        lemma_rank_below_count(s.nb_x, s.nb_y, s.x, s.y);
    }
    if s.stage == SeedStage::Homing && s.nb_x > 0 && s.nb_y > 0 {
        lemma_rank_below_count(s.nb_x, s.nb_y, 0, 0);
    }
}

/// Each pot is seeded at its rank: the pot lies in the grid, and the count
/// of pots already seeded is its rank in the seeding order (columns one
/// after the other, each one row by row). So the job seeds every pot at most
/// once, in that order, and no pot outside the grid.
pub proof fn lemma_pot_seeded_at_its_rank(
    s: SeedState,
    control: ControlState,
    ok: bool,
    x: i32,
    y: i32,
)
    requires
        s.inv(),
        s.step(control, ok).1 == (SeedAction::SeedPot { x, y }),
    ensures
        0 <= x < s.nb_x,
        0 <= y < s.nb_y,
        s.step(control, ok).0.done == pot_rank(s.nb_y, x, y),
        s.step(control, ok).0.stage == SeedStage::Seeding,
{
    lemma_step_keeps_invariant(s, control, ok);
}

/// A progress report follows the seeding of a pot, counts it, and gives the
/// grid's pot count as the total.
pub proof fn lemma_progress_counts_seeded_pots(
    s: SeedState,
    control: ControlState,
    ok: bool,
    done: i32,
    total: i32,
)
    requires
        s.inv(),
        s.step(control, ok).1 == (SeedAction::Progress { done, total }),
    ensures
        s.stage == SeedStage::Seeding,
        ok,
        done == pot_rank(s.nb_y, s.x, s.y) + 1,
        total == pot_count(s.nb_x, s.nb_y),
{
    lemma_rank_below_count(s.nb_x, s.nb_y, s.x, s.y);
}

/// A job completes only when its grid is empty or right after the report
/// of its last pot, when every pot of the grid is seeded.
pub proof fn lemma_completion_covers_the_grid(s: SeedState, control: ControlState, ok: bool)
    requires
        s.inv(),
        !(s.stage is Finished),
        s.step(control, ok).1 == SeedAction::Finish(Ok(SeedOutcome::Completed)),
    ensures
        (s.stage == SeedStage::Homing && (s.nb_x <= 0 || s.nb_y <= 0)) || (s.stage
            == SeedStage::Reporting && s.x == s.nb_x - 1 && s.y == s.nb_y - 1 && s.done
            == pot_count(s.nb_x, s.nb_y)),
{
    if s.stage == SeedStage::Reporting {
        lemma_rank_below_count(s.nb_x, s.nb_y, s.x, s.y);
    }
}

/// A pot is only started when the controls do not abort the job, and, apart
/// from the step right after the end of a pause was announced, only when no
/// pause is requested.
pub proof fn lemma_pot_needs_go_ahead(
    s: SeedState,
    control: ControlState,
    ok: bool,
    x: i32,
    y: i32,
)
    requires
        s.step(control, ok).1 == (SeedAction::SeedPot { x, y }),
    ensures
        !control.aborts(s.job_id),
        control.paused ==> s.stage == SeedStage::Resuming,
{
}

/// The job ends as aborted only when the controls abort it at that step.
pub proof fn lemma_abort_only_on_request(s: SeedState, control: ControlState, ok: bool)
    requires
        !(s.stage is Finished),
        s.step(control, ok).1 == SeedAction::Finish(Ok(SeedOutcome::Aborted)),
    ensures
        control.aborts(s.job_id),
{
}

/// Pause announcements tell the truth and alternate: the operator is told
/// "paused" only when the loop starts waiting on a pause it had not
/// announced, "resumed" only when it leaves an announced wait, and the
/// announced state changes at no other step.
pub proof fn lemma_pause_announcements_alternate(s: SeedState, control: ControlState, ok: bool)
    ensures
        s.step(control, ok).1 == SeedAction::AnnouncePause(true) ==> !s.pause_shown()
            && s.step(control, ok).0.pause_shown() && control.paused && !control.aborts(s.job_id),
        s.step(control, ok).1 == SeedAction::AnnouncePause(false) ==> s.pause_shown()
            && !s.step(control, ok).0.pause_shown(),
        !(s.step(control, ok).1 is AnnouncePause) ==> (s.step(control, ok).0.pause_shown()
            <==> s.pause_shown()),
{
}

/// A finished job stays finished and keeps answering with its result.
pub proof fn lemma_finished_is_final(
    s: SeedState,
    control: ControlState,
    ok: bool,
    result: Result<SeedOutcome, SeedFailure>,
)
    requires
        s.stage == SeedStage::Finished(result),
    ensures
        s.step(control, ok) == (s, SeedAction::Finish(result)),
{
}

} // verus!
