//! Pause and abort controls of a seeding job.
//!
//! Abort uses a job-id watermark instead of a resettable flag: every queued
//! job gets an increasing id, and a stop request records the id it targets.
//! A job aborts when its id is at or below the watermark, so a stop aimed at
//! a job still waiting in the queue cannot be erased when the worker dequeues
//! it, and a stop aimed at a finished job cannot leak into a later one.

use vstd::prelude::*;

verus! {

/// The abstract state of a [`SeedingControl`].
pub struct ControlState {
    /// Highest job id a stop has been requested for (0 = none).
    pub abort_up_to: u64,
    /// Whether a pause is requested.
    pub paused: bool,
}

impl ControlState {
    /// Whether the job with id `job_id` must stop.
    pub open spec fn aborts(self, job_id: u64) -> bool {
        self.abort_up_to >= job_id
    }

    /// The state after a stop request for `job_id` (and every earlier job).
    pub open spec fn with_abort(self, job_id: u64) -> ControlState {
        ControlState {
            abort_up_to: if job_id > self.abort_up_to { job_id } else { self.abort_up_to },
            paused: self.paused,
        }
    }

    /// The state with the pause request set to `paused`.
    pub open spec fn with_pause(self, paused: bool) -> ControlState {
        ControlState { abort_up_to: self.abort_up_to, paused }
    }

    /// The state of a freshly created control block.
    pub open spec fn fresh() -> ControlState {
        ControlState { abort_up_to: 0, paused: false }
    }
}

/// Controls used to pause or abort a seeding job.
///
/// The seeding loop consults them between pots, while the operator side
/// requests pauses and stops.
pub struct SeedingControl {
    abort_up_to: u64,
    pause: bool,
}

impl View for SeedingControl {
    type V = ControlState;

    closed spec fn view(&self) -> ControlState {
        ControlState { abort_up_to: self.abort_up_to, paused: self.pause }
    }
}

impl SeedingControl {
    /// Creates a new control block: nothing aborted, not paused.
    pub fn new() -> (control: Self)
        ensures
            control@ == ControlState::fresh(),
    {
        SeedingControl { abort_up_to: 0, pause: false }
    }

    /// Requests the abort of `job_id` and every job queued before it.
    ///
    /// The watermark only ever moves forward, so a later request for an
    /// earlier job cannot lower it.
    pub fn request_abort(&mut self, job_id: u64)
        ensures
            final(self)@ == old(self)@.with_abort(job_id),
    {
        if job_id > self.abort_up_to {
            self.abort_up_to = job_id;
        }
    }

    /// Returns `true` if the job with `job_id` should stop.
    pub fn should_abort(&self, job_id: u64) -> (stop: bool)
        ensures
            stop == self@.aborts(job_id),
    {
        self.abort_up_to >= job_id
    }

    /// Suspends the seeding loop before the next pot.
    pub fn request_pause(&mut self)
        ensures
            final(self)@ == old(self)@.with_pause(true),
    {
        self.pause = true;
    }

    /// Resumes a paused seeding loop.
    pub fn resume(&mut self)
        ensures
            final(self)@ == old(self)@.with_pause(false),
    {
        self.pause = false;
    }

    /// Returns `true` if a pause is currently requested.
    pub fn is_paused(&self) -> (paused: bool)
        ensures
            paused == self@.paused,
    {
        self.pause
    }

    /// Called by the worker when it dequeues a job: clears a pause left
    /// over from a previous job. The abort watermark needs no clearing, as
    /// it only affects jobs with ids at or below it.
    pub fn begin_job(&mut self)
        ensures
            final(self)@ == old(self)@.with_pause(false),
    {
        self.pause = false;
    }
}

impl Default for SeedingControl {
    fn default() -> (control: Self)
        ensures
            control@ == ControlState::fresh(),
    {
        SeedingControl::new()
    }
}

/// A fresh control block aborts no job with a positive id and is not paused.
pub proof fn lemma_fresh_control_is_idle(job_id: u64)
    requires
        job_id >= 1,
    ensures
        !ControlState::fresh().aborts(job_id),
        !ControlState::fresh().paused,
{
}

/// A stop request for a job aborts that job and every job queued before it,
/// and no job queued after it that was not already aborted.
pub proof fn lemma_abort_targets_job_and_earlier(s: ControlState, target: u64, job_id: u64)
    ensures
        s.with_abort(target).aborts(job_id) <==> (job_id <= target || s.aborts(job_id)),
{
}

/// Once a job is aborted it stays aborted: no later stop request, pause,
/// resume or job start can lower the watermark.
pub proof fn lemma_abort_is_never_undone(s: ControlState, job_id: u64, other: u64, paused: bool)
    requires
        s.aborts(job_id),
    ensures
        s.with_abort(other).aborts(job_id),
        s.with_pause(paused).aborts(job_id),
        s.with_abort(other).abort_up_to >= s.abort_up_to,
{
}

/// Pausing and resuming only touch the pause request, and resuming after a
/// pause gives back the state with no pause requested.
pub proof fn lemma_pause_resume_roundtrip(s: ControlState)
    ensures
        s.with_pause(true).paused,
        s.with_pause(true).with_pause(false) == s.with_pause(false),
        !s.with_pause(false).paused,
        s.with_pause(true).abort_up_to == s.abort_up_to,
        s.with_pause(false).abort_up_to == s.abort_up_to,
{
}

/// A call on a [`SeedingControl`] that changes its state.
pub enum ControlCall {
    /// [`SeedingControl::request_abort`] for the given job id.
    RequestAbort(u64),
    /// [`SeedingControl::request_pause`].
    RequestPause,
    /// [`SeedingControl::resume`].
    Resume,
    /// [`SeedingControl::begin_job`].
    BeginJob,
}

impl ControlCall {
    /// The state after this call, as the method's contract states it.
    pub open spec fn apply(self, s: ControlState) -> ControlState {
        match self {
            ControlCall::RequestAbort(job_id) => s.with_abort(job_id),
            ControlCall::RequestPause => s.with_pause(true),
            ControlCall::Resume => s.with_pause(false),
            ControlCall::BeginJob => s.with_pause(false),
        }
    }

    /// This call is a stop request covering `job_id`.
    pub open spec fn stops(self, job_id: u64) -> bool {
        self matches ControlCall::RequestAbort(target) && job_id <= target
    }
}

/// The state after the calls `calls`, in order, starting from `s`.
pub open spec fn after_calls(s: ControlState, calls: Seq<ControlCall>) -> ControlState
    decreases calls.len(),
{
    if calls.len() == 0 {
        s
    } else {
        calls.last().apply(after_calls(s, calls.drop_last()))
    }
}

/// No call after position `i` of `calls` touches the pause request.
pub open spec fn no_pause_call_after(calls: Seq<ControlCall>, i: int) -> bool {
    forall|k: int| i < k < calls.len() ==> #[trigger] calls[k] is RequestAbort
}

/// Whatever calls are made, in whatever order, a job is aborted afterwards
/// exactly when it was aborted before or one of the stop requests covers
/// it: the watermark ends at the largest job id requested, and no call
/// lowers or resets it.
pub proof fn lemma_watermark_is_largest_request(
    s: ControlState,
    calls: Seq<ControlCall>,
    job_id: u64,
)
    ensures
        after_calls(s, calls).aborts(job_id) <==> (s.aborts(job_id) || exists|i: int|
            0 <= i < calls.len() && #[trigger] calls[i].stops(job_id)),
    decreases calls.len(),
{
    if calls.len() > 0 {
        let n = calls.len() - 1;
        let front = calls.drop_last();
        lemma_watermark_is_largest_request(s, front, job_id);
        assert(calls[n] == calls.last());
        assert(after_calls(s, calls) == calls[n].apply(after_calls(s, front)));
        if calls[n].stops(job_id) {
            assert(after_calls(s, calls).aborts(job_id));
        }
        if exists|i: int| 0 <= i < front.len() && #[trigger] front[i].stops(job_id) {
            let i = choose|i: int| 0 <= i < front.len() && #[trigger] front[i].stops(job_id);
            assert(calls[i] == front[i]);
        }
        if exists|i: int| 0 <= i < calls.len() && #[trigger] calls[i].stops(job_id) {
            let i = choose|i: int| 0 <= i < calls.len() && #[trigger] calls[i].stops(job_id);
            if i < front.len() {
                assert(front[i] == calls[i]);
            }
        }
    }
}

/// From a fresh control block, a job with a positive id is aborted after
/// any calls exactly when some stop request in them covers it.
pub proof fn lemma_fresh_watermark(calls: Seq<ControlCall>, job_id: u64)
    requires
        job_id >= 1,
    ensures
        after_calls(ControlState::fresh(), calls).aborts(job_id) <==> exists|i: int|
            0 <= i < calls.len() && #[trigger] calls[i].stops(job_id),
{
    lemma_watermark_is_largest_request(ControlState::fresh(), calls, job_id);
}

/// A stop can never be erased: once a job is aborted, it stays aborted
/// whatever calls follow.
pub proof fn lemma_stop_is_never_erased(s: ControlState, calls: Seq<ControlCall>, job_id: u64)
    requires
        s.aborts(job_id),
    ensures
        after_calls(s, calls).aborts(job_id),
{
    lemma_watermark_is_largest_request(s, calls, job_id);
}

/// The pause request follows the last call that touches it: it is set
/// after the calls exactly when the last pause, resume or job start among
/// them is a pause, or when there is none and it was set before. Stop
/// requests never change it.
pub proof fn lemma_pause_follows_last_pause_call(s: ControlState, calls: Seq<ControlCall>)
    ensures
        after_calls(s, calls).paused <==> ((exists|i: int|
            0 <= i < calls.len() && #[trigger] calls[i] is RequestPause && no_pause_call_after(
                calls,
                i,
            )) || (s.paused && no_pause_call_after(calls, -1))),
    decreases calls.len(),
{
    if calls.len() > 0 {
        let n = calls.len() - 1;
        let front = calls.drop_last();
        lemma_pause_follows_last_pause_call(s, front);
        assert(forall|k: int|
            #![trigger front[k]]
            #![trigger calls[k]]
            0 <= k < n ==> front[k] == calls[k]);
        match calls.last() {
            ControlCall::RequestAbort(_) => {
                assert(calls[n] is RequestAbort);
                assert(no_pause_call_after(calls, -1) == no_pause_call_after(front, -1)) by {
                    if no_pause_call_after(front, -1) {
                        assert forall|k: int| -1 < k < calls.len() implies #[trigger] calls[k] is RequestAbort by {
                            if k < n {
                                assert(front[k] is RequestAbort);
                            }
                        }
                    }
                }
                if exists|i: int|
                    0 <= i < front.len() && #[trigger] front[i] is RequestPause
                        && no_pause_call_after(front, i) {
                    let i = choose|i: int|
                        0 <= i < front.len() && #[trigger] front[i] is RequestPause
                            && no_pause_call_after(front, i);
                    assert forall|k: int| i < k < calls.len() implies #[trigger] calls[k] is RequestAbort by {
                        if k < n {
                            assert(front[k] is RequestAbort);
                        }
                    }
                    assert(calls[i] is RequestPause && no_pause_call_after(calls, i));
                }
                if exists|i: int|
                    0 <= i < calls.len() && #[trigger] calls[i] is RequestPause
                        && no_pause_call_after(calls, i) {
                    let i = choose|i: int|
                        0 <= i < calls.len() && #[trigger] calls[i] is RequestPause
                            && no_pause_call_after(calls, i);
                    assert(i < n);
                    assert(front[i] is RequestPause && no_pause_call_after(front, i));
                }
            },
            ControlCall::RequestPause => {
                assert(calls[n] is RequestPause && no_pause_call_after(calls, n));
            },
            _ => {
                assert(!(calls[n] is RequestAbort));
                assert(!no_pause_call_after(calls, -1));
                assert forall|i: int|
                    0 <= i < calls.len() && #[trigger] calls[i] is RequestPause implies !no_pause_call_after(
                    calls,
                    i,
                ) by {
                    assert(i < n);
                }
            },
        }
    }
}

/// A stop request leaves the pause request as it was.
pub proof fn lemma_stop_keeps_pause(s: ControlState, job_id: u64)
    ensures
        ControlCall::RequestAbort(job_id).apply(s).paused == s.paused,
{
}

} // verus!
