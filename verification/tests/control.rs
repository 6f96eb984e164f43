use deltax2::SeedingControl;

#[test]
fn fresh_control_neither_aborts_nor_pauses() {
    let control = SeedingControl::new();
    assert!(!control.should_abort(1));
    assert!(!control.is_paused());
}

#[test]
fn abort_targets_its_job_and_earlier_ones() {
    let mut control = SeedingControl::new();
    control.request_abort(2);
    assert!(control.should_abort(1));
    assert!(control.should_abort(2));
    assert!(!control.should_abort(3));
}

#[test]
fn stop_on_queued_job_survives_dequeue() {
    // A stop pressed while the job still waits in the command queue must
    // not be erased when the worker dequeues it.
    let mut control = SeedingControl::new();
    control.request_abort(1);
    control.begin_job();
    assert!(control.should_abort(1));
}

#[test]
fn abort_watermark_never_moves_backwards() {
    let mut control = SeedingControl::new();
    control.request_abort(5);
    control.request_abort(3);
    assert!(control.should_abort(5));
}

#[test]
fn begin_job_clears_leftover_pause() {
    let mut control = SeedingControl::new();
    control.request_pause();
    control.begin_job();
    assert!(!control.is_paused());
}

#[test]
fn pause_and_resume_roundtrip() {
    let mut control = SeedingControl::new();
    control.request_pause();
    assert!(control.is_paused());
    control.resume();
    assert!(!control.is_paused());
}

#[test]
fn default_control_is_fresh() {
    let control = SeedingControl::default();
    assert!(!control.should_abort(1));
    assert!(control.should_abort(0));
    assert!(!control.is_paused());
}

#[test]
fn pause_requests_leave_the_abort_watermark_alone() {
    let mut control = SeedingControl::new();
    control.request_abort(4);
    control.request_pause();
    control.resume();
    control.begin_job();
    assert!(control.should_abort(4));
    assert!(!control.should_abort(5));
}

#[test]
fn a_stop_for_a_finished_job_does_not_leak_into_the_next() {
    let mut control = SeedingControl::new();
    control.request_abort(1);
    control.begin_job();
    assert!(!control.should_abort(2));
}

#[test]
fn watermark_is_the_largest_of_mixed_requests() {
    let mut control = SeedingControl::new();
    control.request_abort(3);
    control.request_pause();
    control.request_abort(7);
    control.begin_job();
    control.request_abort(2);
    control.resume();
    for job in 1..=7 {
        assert!(control.should_abort(job));
    }
    assert!(!control.should_abort(8));
}

#[test]
fn pause_follows_the_last_pause_resume_or_begin() {
    let mut control = SeedingControl::new();
    control.request_pause();
    control.request_abort(4);
    assert!(control.is_paused());
    control.resume();
    control.request_abort(9);
    assert!(!control.is_paused());
    control.begin_job();
    control.request_pause();
    control.request_abort(1);
    assert!(control.is_paused());
    control.begin_job();
    assert!(!control.is_paused());
}
