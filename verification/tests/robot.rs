//! Drives the library's exchanges and seeding loop the way the robot worker
//! does, over a scripted transport and a virtual clock.

use deltax2::control::SeedingControl;
use deltax2::link::{Action, Done, Event, Exchange, Failure, Reply, Wait, WaitOutcome};
use deltax2::seeding::{IntCoord2D, SeedAction, SeedFailure, SeedOutcome, SeedRun};
use deltax2::Axis;
use std::collections::VecDeque;
use std::time::Instant;

/// Each successful write releases the next scripted response chunk, which
/// the following reads return.
struct MockTransport {
    script: VecDeque<Vec<u8>>,
    pending: VecDeque<Vec<u8>>,
    written: Vec<u8>,
    fail_write_at: Option<usize>,
    fail_reads: bool,
    writes: usize,
    open: bool,
}

impl MockTransport {
    fn scripted(responses: &[&str]) -> Self {
        Self {
            script: responses.iter().map(|r| r.as_bytes().to_vec()).collect(),
            pending: VecDeque::new(),
            written: Vec::new(),
            fail_write_at: None,
            fail_reads: false,
            writes: 0,
            open: true,
        }
    }

    fn written_str(&self) -> String {
        String::from_utf8(self.written.clone()).unwrap()
    }

    fn write_data(&mut self, data: &[u8]) -> bool {
        self.writes += 1;
        if self.fail_write_at == Some(self.writes) || !self.open {
            return false;
        }
        self.written.extend_from_slice(data);
        if let Some(response) = self.script.pop_front() {
            self.pending.push_back(response);
        }
        true
    }

    fn read_data(&mut self) -> Option<Vec<u8>> {
        if self.fail_reads || !self.open {
            return None;
        }
        Some(self.pending.pop_front().unwrap_or_default())
    }
}

/// The worker's robot: transport, virtual clock (nanoseconds), tracked
/// position, software limits and desynchronized flag.
struct Robot {
    transport: MockTransport,
    now: u128,
    position: (f32, f32, f32),
    limit_min: (f32, f32, f32),
    limit_max: (f32, f32, f32),
    desynchronized: bool,
}

impl Robot {
    fn with_transport(transport: MockTransport) -> Self {
        Self {
            transport,
            now: 0,
            position: (0.0, 0.0, 0.0),
            limit_min: (-200.0, -200.0, -100.0),
            limit_max: (200.0, 200.0, 100.0),
            desynchronized: false,
        }
    }

    /// Performs one action; returns the event that answers it.
    fn perform(&mut self, x: &Exchange, action: Action) -> Event {
        match action {
            Action::Flush => {
                self.transport.pending.clear();
                Event::Ready
            }
            Action::Write(command) => Event::Written(self.transport.write_data(&x.bytes_of(command))),
            Action::ReadClock => Event::Clock(self.now),
            Action::Read => Event::Received(self.transport.read_data()),
            Action::Sleep(ms) => {
                self.now += ms as u128 * 1_000_000;
                Event::Ready
            }
            Action::Close => {
                self.transport.open = false;
                Event::Ready
            }
            Action::Finish(_) => Event::Ready,
        }
    }

    fn drive(&mut self, x: &mut Exchange) -> Result<Done, Failure> {
        let mut event = Event::Ready;
        loop {
            assert!(x.accepts(&event));
            let action = x.advance(&mut self.desynchronized, event);
            if let Action::Finish(result) = action {
                return result;
            }
            event = self.perform(x, action);
        }
    }

    fn move_axis(&mut self, axis: Axis, displacement: f32) -> Result<(), Failure> {
        let (current, min, max) = match axis {
            Axis::X => (self.position.0, self.limit_min.0, self.limit_max.0),
            Axis::Y => (self.position.1, self.limit_min.1, self.limit_max.1),
            Axis::Z => (self.position.2, self.limit_min.2, self.limit_max.2),
        };
        let within = !(current + displacement < min || current + displacement > max);
        let mut x = Exchange::jog(self.desynchronized, within, axis, &format!("{:.4}", displacement));
        self.drive(&mut x)?;
        match axis {
            Axis::X => self.position.0 += displacement,
            Axis::Y => self.position.1 += displacement,
            Axis::Z => self.position.2 += displacement,
        }
        Ok(())
    }

    fn home_xyz(&mut self) -> Result<(), Failure> {
        let mut x = Exchange::home();
        self.drive(&mut x)?;
        self.position = (0.0, 0.0, 0.0);
        Ok(())
    }

    fn connect(&mut self) -> Result<(), Failure> {
        self.transport.open = true;
        let mut x = Exchange::connect();
        if let Done::Connected { synced: true } = self.drive(&mut x)? {
            let p = x.position().unwrap();
            self.position = (p.x.parse().unwrap(), p.y.parse().unwrap(), p.z.parse().unwrap());
        }
        Ok(())
    }

    fn wait_for(&mut self, reply: Reply, timeout_secs: u64) -> WaitOutcome {
        let mut wait = Wait::begin(reply, timeout_secs);
        let mut action = wait.pending();
        loop {
            let event = match action {
                Action::ReadClock => Event::Clock(self.now),
                Action::Read => Event::Received(self.transport.read_data()),
                Action::Sleep(ms) => {
                    self.now += ms as u128 * 1_000_000;
                    Event::Ready
                }
                other => panic!("a wait asked for {:?}", other),
            };
            assert!(wait.expects(&event) && wait.accepts(&event));
            match wait.on(event) {
                WaitOutcome::Pending(next) => action = next,
                outcome => return outcome,
            }
        }
    }

    fn seed_plate(
        &mut self,
        nb_pot: IntCoord2D,
        job_id: u64,
        control: &mut SeedingControl,
        mut progress: impl FnMut(i32, i32),
        mut on_pause: impl FnMut(bool),
        mut while_paused: impl FnMut(&mut SeedingControl),
        pots: &mut Vec<(i32, i32)>,
    ) -> Result<SeedOutcome, SeedFailure> {
        let mut run = SeedRun::new(nb_pot, job_id);
        let mut ok = true;
        loop {
            match run.next(control, ok) {
                SeedAction::Home => ok = self.home_xyz().is_ok(),
                SeedAction::AnnouncePause(paused) => on_pause(paused),
                SeedAction::WaitWhilePaused => while_paused(control),
                SeedAction::SeedPot { x, y } => {
                    pots.push((x, y));
                    ok = true;
                }
                SeedAction::Progress { done, total } => progress(done, total),
                SeedAction::Finish(result) => return result,
            }
        }
    }
}

#[test]
fn connect_performs_isdelta_handshake_then_reads_position() {
    let mut robot = Robot::with_transport(MockTransport::scripted(&[
        "YesDelta\n",
        "X:10.5 Y:-20.0 Z:-150.0 W:0.0 U:0.0\n",
    ]));
    robot.connect().unwrap();
    assert_eq!(robot.transport.written_str(), "IsDelta\nPosition\n");
    assert!(robot.transport.open);
    assert_eq!(robot.position, (10.5, -20.0, -150.0));
    assert!(!robot.desynchronized);
}

#[test]
fn wait_for_ok_times_out_deterministically() {
    let mut robot = Robot::with_transport(MockTransport::scripted(&[]));
    let wall_start = Instant::now();
    assert_eq!(robot.wait_for(Reply::Ack, 5), WaitOutcome::TimedOut);
    assert!(robot.now >= 5_000_000_000);
    assert!(wall_start.elapsed().as_secs() < 1);
}

#[test]
fn wait_for_ok_timeout_scales_with_the_command_class() {
    for secs in [2u64, 10] {
        let mut robot = Robot::with_transport(MockTransport::scripted(&[]));
        assert_eq!(robot.wait_for(Reply::Ack, secs), WaitOutcome::TimedOut);
        assert!(robot.now >= secs as u128 * 1_000_000_000);
        // One poll interval (10ms) of overshoot at most.
        assert!(robot.now < secs as u128 * 1_000_000_000 + 20_000_000);
    }
}

#[test]
fn wait_for_ok_returns_before_timeout_when_ok_arrives() {
    let mut mock = MockTransport::scripted(&[]);
    mock.pending.push_back(b"ok\n".to_vec());
    let mut robot = Robot::with_transport(mock);
    assert_eq!(robot.wait_for(Reply::Ack, 5), WaitOutcome::Matched);
    assert!(robot.now < 5_000_000_000);
}

#[test]
fn handshake_times_out_without_yesdelta() {
    let mut robot = Robot::with_transport(MockTransport::scripted(&[]));
    let wall_start = Instant::now();
    assert_eq!(robot.connect(), Err(Failure::Timeout));
    assert!(robot.now >= 2_000_000_000);
    assert!(wall_start.elapsed().as_secs() < 1);
    // The device that failed the handshake is not held open.
    assert!(!robot.transport.open);
}

#[test]
fn jog_sends_g91_move_g90_wire_sequence() {
    let mut robot = Robot::with_transport(MockTransport::scripted(&["ok\n", "ok\n", "ok\n"]));
    robot.move_axis(Axis::X, 10.0).unwrap();
    assert_eq!(
        robot.transport.written_str(),
        "G91 FEEDBACK:ok\nG0 X10.0000 FEEDBACK:ok\nG90 FEEDBACK:ok\n"
    );
    let (x, y, z) = robot.position;
    assert!((x - 10.0).abs() < 0.01, "got {x}, want 10.0");
    assert!(y.abs() < 0.01 && z.abs() < 0.01);
}

#[test]
fn out_of_limits_jog_sends_nothing() {
    let mut robot = Robot::with_transport(MockTransport::scripted(&[]));
    assert!(robot.move_axis(Axis::X, 250.0).is_err());
    assert_eq!(robot.transport.written_str(), "");
    assert!(robot.position.0.abs() < 0.01);
}

#[test]
fn stale_input_is_flushed_before_a_command_sequence() {
    let mut mock = MockTransport::scripted(&["ok\n", "ok\n", "ok\n"]);
    mock.pending.push_back(b"ok\n".to_vec());
    let mut robot = Robot::with_transport(mock);
    robot.move_axis(Axis::X, 5.0).unwrap();
    assert_eq!(
        robot.transport.written_str(),
        "G91 FEEDBACK:ok\nG0 X5.0000 FEEDBACK:ok\nG90 FEEDBACK:ok\n"
    );
    let x = robot.position.0;
    assert!((x - 5.0).abs() < 0.01, "got {x}, want 5.0");
}

#[test]
fn homing_sends_g28_and_resets_position() {
    let mut robot =
        Robot::with_transport(MockTransport::scripted(&["ok\n", "ok\n", "ok\n", "ok\n"]));
    robot.move_axis(Axis::Z, -50.0).unwrap();
    robot.home_xyz().unwrap();
    assert!(robot.transport.written_str().ends_with("G28 FEEDBACK:ok\n"));
    let (x, y, z) = robot.position;
    assert!(x.abs() < 0.01 && y.abs() < 0.01 && z.abs() < 0.01);
}

#[test]
fn failed_mid_sequence_desynchronizes_until_homed() {
    let mut mock = MockTransport::scripted(&["ok\n", "ok\n", "ok\n", "ok\n", "ok\n", "ok\n"]);
    mock.fail_write_at = Some(2); // the G0 write fails, after G91 succeeded
    let mut robot = Robot::with_transport(mock);

    assert!(robot.move_axis(Axis::X, 10.0).is_err());
    assert!(robot.desynchronized);
    assert!(robot.position.0.abs() < 0.01);
    assert!(robot.transport.written_str().ends_with("G90 FEEDBACK:ok\n"));

    let writes_before = robot.transport.writes;
    assert!(robot.move_axis(Axis::X, 1.0).is_err());
    assert_eq!(robot.transport.writes, writes_before);

    robot.home_xyz().unwrap();
    assert!(!robot.desynchronized);
    robot.move_axis(Axis::X, 1.0).unwrap();
    let x = robot.position.0;
    assert!((x - 1.0).abs() < 0.01, "got {x}, want 1.0");
}

#[test]
fn lost_link_closes_the_port_and_desynchronizes() {
    let mut mock = MockTransport::scripted(&[]);
    mock.fail_reads = true;
    let mut robot = Robot::with_transport(mock);
    assert!(robot.move_axis(Axis::X, 1.0).is_err());
    assert!(!robot.transport.open);
    assert!(robot.desynchronized);
}

#[test]
fn desynchronized_jog_is_refused_before_the_limit_check() {
    let mut robot = Robot::with_transport(MockTransport::scripted(&[]));
    robot.desynchronized = true;
    assert_eq!(robot.move_axis(Axis::X, 250.0), Err(Failure::Desynchronized));
    assert_eq!(robot.transport.writes, 0);
}

#[test]
fn jog_limits_are_inclusive() {
    let mut robot = Robot::with_transport(MockTransport::scripted(&["ok\n", "ok\n", "ok\n"]));
    robot.move_axis(Axis::Y, -200.0).unwrap();
    assert!(robot.position.1 + 200.0 < 0.01);
    assert_eq!(robot.move_axis(Axis::Y, -0.001), Err(Failure::OutOfLimits));
}

#[test]
fn unacknowledged_homing_desynchronizes() {
    let mut robot = Robot::with_transport(MockTransport::scripted(&[]));
    assert_eq!(robot.home_xyz(), Err(Failure::Timeout));
    assert!(robot.desynchronized);
    assert!(robot.now >= 10_000_000_000);
}

#[test]
fn failed_homing_write_keeps_the_state() {
    let mut mock = MockTransport::scripted(&[]);
    mock.fail_write_at = Some(1);
    let mut robot = Robot::with_transport(mock);
    assert_eq!(robot.home_xyz(), Err(Failure::WriteFailed));
    assert!(!robot.desynchronized);
}

#[test]
fn connect_without_position_report_requires_homing() {
    let mut robot = Robot::with_transport(MockTransport::scripted(&["yesdelta\n", "ok\n"]));
    robot.connect().unwrap();
    assert!(robot.desynchronized);
    assert_eq!(robot.position, (0.0, 0.0, 0.0));
    assert!(robot.transport.open);
}

#[test]
fn partial_position_line_is_not_taken() {
    // The position line arrives without its line feed: it is not complete,
    // so the connection times out on the position and desynchronizes.
    let mut robot =
        Robot::with_transport(MockTransport::scripted(&["YesDelta\n", "X:1 Y:2 Z:3"]));
    robot.connect().unwrap();
    assert!(robot.desynchronized);
    assert!(robot.now >= 2_000_000_000);
}

#[test]
fn echoed_command_does_not_acknowledge_a_jog() {
    let mut robot = Robot::with_transport(MockTransport::scripted(&[
        "G91 FEEDBACK:ok\n",
        "ok\n",
        "ok\n",
    ]));
    assert_eq!(robot.move_axis(Axis::X, 1.0), Err(Failure::Timeout));
    assert!(robot.desynchronized);
    assert_eq!(robot.transport.written_str(), "G91 FEEDBACK:ok\nG90 FEEDBACK:ok\n");
}

fn single_pot() -> IntCoord2D {
    IntCoord2D { x: 1, y: 1 }
}

#[test]
fn seed_plate_completes_without_pause_callbacks_when_not_paused() {
    let mut control = SeedingControl::new();
    let mut robot = Robot::with_transport(MockTransport::scripted(&["ok\n"]));
    let mut pause_events: Vec<bool> = Vec::new();
    let mut last_done = 0;
    let mut pots = Vec::new();
    let outcome = robot
        .seed_plate(
            single_pot(),
            1,
            &mut control,
            |done, _total| last_done = done,
            |p| pause_events.push(p),
            |_| {},
            &mut pots,
        )
        .unwrap();
    assert_eq!(outcome, SeedOutcome::Completed);
    assert_eq!(last_done, 1);
    assert!(pause_events.is_empty());
}

#[test]
fn seed_plate_stop_before_first_pot_aborts_without_pause_callback() {
    let mut control = SeedingControl::new();
    control.request_abort(1);
    let mut robot = Robot::with_transport(MockTransport::scripted(&["ok\n"]));
    let mut pause_events: Vec<bool> = Vec::new();
    let mut pots = Vec::new();
    let outcome = robot
        .seed_plate(
            single_pot(),
            1,
            &mut control,
            |_done, _total| {},
            |p| pause_events.push(p),
            |_| {},
            &mut pots,
        )
        .unwrap();
    assert_eq!(outcome, SeedOutcome::Aborted);
    assert!(pause_events.is_empty());
}

#[test]
fn seed_plate_reports_pause_then_resume_transition() {
    // The pause is requested up front, so the loop parks on the very first
    // pot; the operator resumes it once it has parked.
    let mut control = SeedingControl::new();
    control.request_pause();
    let mut events: Vec<bool> = Vec::new();
    let mut robot = Robot::with_transport(MockTransport::scripted(&["ok\n"]));
    let mut pots = Vec::new();
    let outcome = robot
        .seed_plate(
            single_pot(),
            1,
            &mut control,
            |_done, _total| {},
            |p| events.push(p),
            |c| c.resume(),
            &mut pots,
        )
        .unwrap();
    assert_eq!(outcome, SeedOutcome::Completed);
    assert_eq!(events, vec![true, false]);
}

#[test]
fn seeding_visits_every_pot_column_by_column() {
    let mut control = SeedingControl::new();
    let mut robot = Robot::with_transport(MockTransport::scripted(&["ok\n"]));
    let mut reports = Vec::new();
    let mut pots = Vec::new();
    let outcome = robot
        .seed_plate(
            IntCoord2D { x: 2, y: 3 },
            7,
            &mut control,
            |done, total| reports.push((done, total)),
            |_| {},
            |_| {},
            &mut pots,
        )
        .unwrap();
    assert_eq!(outcome, SeedOutcome::Completed);
    assert_eq!(pots, vec![(0, 0), (0, 1), (0, 2), (1, 0), (1, 1), (1, 2)]);
    assert_eq!(reports, vec![(1, 6), (2, 6), (3, 6), (4, 6), (5, 6), (6, 6)]);
}

#[test]
fn seeding_stops_when_aborted_while_paused() {
    let mut control = SeedingControl::new();
    control.request_pause();
    let mut robot = Robot::with_transport(MockTransport::scripted(&["ok\n"]));
    let mut events = Vec::new();
    let mut pots = Vec::new();
    let outcome = robot
        .seed_plate(
            IntCoord2D { x: 3, y: 3 },
            2,
            &mut control,
            |_, _| {},
            |p| events.push(p),
            |c| c.request_abort(2),
            &mut pots,
        )
        .unwrap();
    assert_eq!(outcome, SeedOutcome::Aborted);
    assert!(pots.is_empty());
    assert_eq!(events, vec![true, false]);
}

#[test]
fn seeding_fails_when_homing_fails() {
    let mut control = SeedingControl::new();
    let mut robot = Robot::with_transport(MockTransport::scripted(&[]));
    let mut pots = Vec::new();
    let outcome = robot.seed_plate(
        IntCoord2D { x: 2, y: 2 },
        1,
        &mut control,
        |_, _| {},
        |_| {},
        |_| {},
        &mut pots,
    );
    assert_eq!(outcome, Err(SeedFailure::Homing));
    assert!(pots.is_empty());
}

#[test]
fn empty_grid_completes_after_homing() {
    let mut control = SeedingControl::new();
    let mut robot = Robot::with_transport(MockTransport::scripted(&["ok\n"]));
    let mut reports = Vec::new();
    let mut pots = Vec::new();
    let outcome = robot
        .seed_plate(
            IntCoord2D { x: 0, y: 5 },
            1,
            &mut control,
            |d, t| reports.push((d, t)),
            |_| {},
            |_| {},
            &mut pots,
        )
        .unwrap();
    assert_eq!(outcome, SeedOutcome::Completed);
    assert!(pots.is_empty() && reports.is_empty());
    assert_eq!(robot.transport.written_str(), "G28 FEEDBACK:ok\n");
}

#[test]
fn invalid_utf8_does_not_hide_an_acknowledgement() {
    let mut mock = MockTransport::scripted(&[]);
    mock.pending.push_back(vec![0xff, 0xfe, b'\n', b'o', b'k', b'\n']);
    let mut robot = Robot::with_transport(mock);
    assert_eq!(robot.wait_for(Reply::Ack, 2), WaitOutcome::Matched);
}

#[test]
fn acknowledgement_split_across_reads_is_found() {
    let mut mock = MockTransport::scripted(&[]);
    mock.pending.push_back(b"report\no".to_vec());
    mock.pending.push_back(Vec::new());
    mock.pending.push_back(b"k\r\n".to_vec());
    let mut robot = Robot::with_transport(mock);
    assert_eq!(robot.wait_for(Reply::Ack, 2), WaitOutcome::Matched);
    // Two polls without the full line, each followed by a 10 ms sleep.
    assert_eq!(robot.now, 20_000_000);
}

#[test]
fn identity_wait_polls_every_fifty_milliseconds() {
    let mut robot = Robot::with_transport(MockTransport::scripted(&[]));
    assert_eq!(robot.wait_for(Reply::Identity, 2), WaitOutcome::TimedOut);
    assert_eq!(robot.now, 2_000_000_000);
    let mut wait = Wait::begin(Reply::Identity, 2);
    assert_eq!(wait.on(Event::Clock(0)), WaitOutcome::Pending(Action::ReadClock));
    assert_eq!(wait.on(Event::Clock(5)), WaitOutcome::Pending(Action::Read));
    assert_eq!(
        wait.on(Event::Received(Some(b"YESdelta".to_vec()))),
        WaitOutcome::Matched
    );
}

#[test]
fn an_event_that_does_not_answer_gets_the_same_action_back() {
    let mut desync = false;
    let mut x = Exchange::home();
    assert_eq!(x.advance(&mut desync, Event::Ready), Action::Flush);
    assert_eq!(x.advance(&mut desync, Event::Ready), Action::Write(deltax2::link::Command::Homing));
    assert_eq!(x.advance(&mut desync, Event::Clock(3)), Action::Write(deltax2::link::Command::Homing));
    assert_eq!(x.bytes_of(deltax2::link::Command::Homing), b"G28 FEEDBACK:ok\n".to_vec());
    assert_eq!(x.advance(&mut desync, Event::Written(true)), Action::ReadClock);
}
