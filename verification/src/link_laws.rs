//! Properties of the command exchanges that hold for every input.

use crate::link::{
    Action, Command, Done, Event, ExchangeState, Failure, Reply, Stage, Then, WaitOutcome,
    WaitPhase, WaitState,
};
use crate::link::lossy_utf8;
use crate::text::{complete_part, holds_ok_line, position_report, reports_identity};
use vstd::prelude::*;

verus! {

/// A failure that happens once a jog has started its I/O.
pub open spec fn is_midway(failure: Failure) -> bool {
    failure == Failure::WriteFailed || failure == Failure::LinkLost || failure == Failure::Timeout
}

/// What holds of a jog and the desynchronized flag at every step: until it
/// fails the flag is clear (a jog only starts when it is), once it failed
/// midway the flag is set, and a refused jog leaves it as it was.
pub open spec fn jog_invariant(x: ExchangeState, desync: bool) -> bool {
    match x.stage {
        Stage::JogStart | Stage::JogFlushing | Stage::JogRelativeSent | Stage::JogRelativeWait
        | Stage::JogMoveSent | Stage::JogMoveWait | Stage::JogAbsoluteSent
        | Stage::JogAbsoluteWait => !desync,
        Stage::RecoverSent(cause) | Stage::RecoverWait(cause) | Stage::Closing(
            Then::Recover(cause),
        )
        | Stage::Closing(Then::Finish(Err(cause))) => desync && is_midway(cause),
        Stage::Finished(Ok(Done::Moved)) => !desync,
        Stage::Finished(Err(cause)) => is_midway(cause) ==> desync,
        _ => false,
    }
}

/// A jog starts in its invariant.
pub proof fn lemma_jog_starts_in_invariant(desync: bool, within_limits: bool, command: Seq<char>)
    ensures
        jog_invariant(ExchangeState::jog(desync, within_limits, command), desync),
{
}

/// Every step of a jog keeps its invariant. Hence a jog that ends in a
/// failure midway (write error, lost link, timeout) always leaves the robot
/// desynchronized, so homing is required before the next move, and a jog
/// that completes leaves it synchronized.
pub proof fn lemma_jog_step_keeps_invariant(x: ExchangeState, desync: bool, event: Event)
    requires
        jog_invariant(x, desync),
    ensures
        jog_invariant(x.step(desync, event).0, x.step(desync, event).1),
{
}

/// A refused jog (desynchronized state, or a move beyond the software
/// limits) asks for no I/O at all: whatever it is handed, it answers with
/// the refusal and stays as it is.
pub proof fn lemma_refused_jog_does_no_io(
    desync: bool,
    within_limits: bool,
    command: Seq<char>,
    flag: bool,
    event: Event,
)
    requires
        desync || !within_limits,
    ensures
        ({
            let x = ExchangeState::jog(desync, within_limits, command);
            let refusal = if desync {
                Failure::Desynchronized
            } else {
                Failure::OutOfLimits
            };
            x.step(flag, event) == (x, flag, Action::Finish(Err(refusal)))
        }),
{
}

/// What holds of a homing and the desynchronized flag at every step: a
/// homing that is acknowledged clears the flag, one that got no
/// acknowledgement sets it, and a failed write leaves it as it was.
pub open spec fn home_invariant(x: ExchangeState, desync: bool) -> bool {
    match x.stage {
        Stage::HomeStart | Stage::HomeFlushing | Stage::HomeSent | Stage::HomeWait => true,
        Stage::Closing(Then::Finish(Err(Failure::LinkLost))) => desync,
        Stage::Finished(Ok(Done::Homed)) => !desync,
        Stage::Finished(Err(Failure::LinkLost)) | Stage::Finished(Err(Failure::Timeout)) => desync,
        Stage::Finished(Err(Failure::WriteFailed)) => true,
        _ => false,
    }
}

/// Every step of a homing keeps its invariant: an acknowledged homing always
/// leaves the robot synchronized, an unacknowledged one desynchronized.
pub proof fn lemma_home_step_keeps_invariant(x: ExchangeState, desync: bool, event: Event)
    requires
        home_invariant(x, desync),
    ensures
        home_invariant(x.step(desync, event).0, x.step(desync, event).1),
{
}

/// A homing starts in its invariant, whatever the flag.
pub proof fn lemma_home_starts_in_invariant(desync: bool)
    ensures
        home_invariant(ExchangeState::starting(Stage::HomeStart), desync),
{
}

/// What holds of a connection and the desynchronized flag at every step:
/// until the identity is confirmed nothing changes the flag; a connection
/// that read the position back is synchronized and holds the report; one
/// that could not is desynchronized.
pub open spec fn connect_invariant(x: ExchangeState, desync: bool, before: bool) -> bool {
    match x.stage {
        Stage::ConnectStart | Stage::IdentityFlushing | Stage::IdentitySent => desync == before,
        Stage::IdentityWait => desync == before && x.wait.reply == Reply::Identity,
        Stage::PositionFlushing | Stage::PositionSent => true,
        Stage::PositionWait => x.wait.reply == Reply::Position,
        Stage::Closing(Then::Finish(Err(cause))) => desync == before && is_midway(cause),
        Stage::Closing(Then::Finish(Ok(Done::Connected { synced: false }))) => desync,
        Stage::Finished(Err(cause)) => desync == before && is_midway(cause),
        Stage::Finished(Ok(Done::Connected { synced })) => if synced {
            !desync && x.position is Some
        } else {
            desync
        },
        _ => false,
    }
}

/// A connection starts in its invariant.
pub proof fn lemma_connect_starts_in_invariant(desync: bool)
    ensures
        connect_invariant(ExchangeState::starting(Stage::ConnectStart), desync, desync),
{
}

/// Every step of a connection keeps its invariant: a failed handshake
/// leaves the flag alone, a successful one ends synchronized with the
/// position report, or desynchronized when the report could not be read.
pub proof fn lemma_connect_step_keeps_invariant(
    x: ExchangeState,
    desync: bool,
    before: bool,
    event: Event,
)
    requires
        connect_invariant(x, desync, before),
    ensures
        connect_invariant(x.step(desync, event).0, x.step(desync, event).1, before),
{
}

/// A failed handshake closes the transport before the connection ends: the
/// step that ends the identity phase in a failure asks to close it.
pub proof fn lemma_failed_handshake_closes(x: ExchangeState, desync: bool, event: Event)
    requires
        x.stage == Stage::IdentitySent || x.stage == Stage::IdentityWait,
        x.step(desync, event).0.stage != x.stage,
        x.step(desync, event).0.stage != Stage::PositionFlushing,
        !(x.step(desync, event).2 is ReadClock),
    ensures
        x.step(desync, event).2 == Action::Close,
        x.step(desync, event).0.stage is Closing,
{
}

/// A lost link while waiting for an acknowledgement or a position report
/// closes the transport and marks the robot desynchronized at once.
pub proof fn lemma_lost_link_closes_and_desynchronizes(
    x: ExchangeState,
    desync: bool,
    event: Event,
)
    requires
        x.is_waiting(),
        x.expects(event),
        x.wait.reply != Reply::Identity,
        x.wait.on(event).1 == WaitOutcome::LinkLost,
        x.stage != Stage::IdentityWait,
    ensures
        x.step(desync, event).2 == Action::Close,
        x.step(desync, event).1,
{
}

/// Input is flushed before each command sequence: the queries and the first
/// command of a jog or a homing are only written right after a flush.
pub proof fn lemma_first_writes_follow_a_flush(
    x: ExchangeState,
    desync: bool,
    event: Event,
    command: Command,
)
    requires
        x.expects(event),
        x.step(desync, event).2 == Action::Write(command),
        command == Command::Relative || command == Command::Homing || command
            == Command::Identity || command == Command::Position,
        !(x.stage is Finished),
    ensures
        x.stage == Stage::JogFlushing || x.stage == Stage::HomeFlushing || x.stage
            == Stage::IdentityFlushing || x.stage == Stage::PositionFlushing,
        event is Ready,
{
}

/// A wait reads the input only while its timeout has not passed since its
/// start, and gives up only once it has.
pub proof fn lemma_wait_honors_timeout(w: WaitState, now: u128)
    requires
        w.phase == WaitPhase::Checking,
        now >= w.start,
    ensures
        w.on(Event::Clock(now)).1 == WaitOutcome::TimedOut <==> now - w.start >= w.timeout_secs
            * 1_000_000_000,
        w.on(Event::Clock(now)).1 == WaitOutcome::Pending(Action::Read) <==> now - w.start
            < w.timeout_secs * 1_000_000_000,
{
}

/// A jog writes its commands in order, each after the previous one was
/// acknowledged: `G91` right after the input flush, the move only once `G91`
/// was acknowledged, `G90` only once the move was acknowledged (or as the
/// recovery of a failure), and it completes only once `G90` was
/// acknowledged.
pub proof fn lemma_jog_writes_in_order(x: ExchangeState, desync: bool, event: Event)
    requires
        jog_invariant(x, desync),
        x.expects(event),
        !(x.stage is Finished),
    ensures
        x.step(desync, event).2 == Action::Write(Command::Relative) ==> x.stage
            == Stage::JogFlushing,
        x.step(desync, event).2 == Action::Write(Command::Move) ==> x.stage
            == Stage::JogRelativeWait && x.wait.on(event).1 == WaitOutcome::Matched,
        x.step(desync, event).2 == Action::Write(Command::Absolute) ==> (x.stage
            == Stage::JogMoveWait && x.wait.on(event).1 == WaitOutcome::Matched)
            || x.step(desync, event).0.stage is RecoverSent,
        x.step(desync, event).2 == Action::Finish(Ok(Done::Moved)) ==> x.stage
            == Stage::JogAbsoluteWait && x.wait.on(event).1 == WaitOutcome::Matched,
{
}

/// The states, desynchronized flags and actions of an exchange that is
/// handed `events` in order.
pub open spec fn run(x: ExchangeState, desync: bool, events: Seq<Event>) -> (
    ExchangeState,
    bool,
    Seq<Action>,
)
    decreases events.len(),
{
    if events.len() == 0 {
        (x, desync, Seq::empty())
    } else {
        let (x1, d1, a) = x.step(desync, events[0]);
        let (xn, dn, rest) = run(x1, d1, events.drop_first());
        (xn, dn, seq![a] + rest)
    }
}

/// A run is the chain of its steps.
proof fn lemma_run_chain(
    states: Seq<ExchangeState>,
    flags: Seq<bool>,
    events: Seq<Event>,
    actions: Seq<Action>,
)
    requires
        states.len() == events.len() + 1,
        flags.len() == events.len() + 1,
        actions.len() == events.len(),
        forall|k: int|
            0 <= k < events.len() ==> #[trigger] states[k].step(flags[k], events[k]) == (
                states[k + 1],
                flags[k + 1],
                actions[k],
            ),
    ensures
        run(states[0], flags[0], events) == (states.last(), flags.last(), actions),
    decreases events.len(),
{
    if events.len() > 0 {
        let (s2, f2, e2, a2) = (
            states.drop_first(),
            flags.drop_first(),
            events.drop_first(),
            actions.drop_first(),
        );
        assert forall|k: int| 0 <= k < e2.len() implies #[trigger] s2[k].step(f2[k], e2[k]) == (
            s2[k + 1],
            f2[k + 1],
            a2[k],
        ) by {
            assert(states[k + 1].step(flags[k + 1], events[k + 1]) == (
                states[k + 2],
                flags[k + 2],
                actions[k + 1],
            ));
        }
        lemma_run_chain(s2, f2, e2, a2);
        assert(states[0].step(flags[0], events[0]) == (states[1], flags[1], actions[0]));
        assert(actions =~= seq![actions[0]] + a2);
    }
}

/// The events of a jog whose three writes succeed and whose three waits
/// read the clock at `t[2i]` (start) and `t[2i+1]` (check), then receive
/// `acks[i]`.
pub open spec fn acknowledged_jog_events(t: Seq<u128>, acks: Seq<Vec<u8>>) -> Seq<Event> {
    seq![
        Event::Ready,
        Event::Ready,
        Event::Written(true),
        Event::Clock(t[0]),
        Event::Clock(t[1]),
        Event::Received(Some(acks[0])),
        Event::Written(true),
        Event::Clock(t[2]),
        Event::Clock(t[3]),
        Event::Received(Some(acks[1])),
        Event::Written(true),
        Event::Clock(t[4]),
        Event::Clock(t[5]),
        Event::Received(Some(acks[2])),
    ]
}

/// The wire contract of a jog: when its writes succeed and each wait gets
/// an `ok` line within its timeout (2 s, 5 s, 2 s), a jog writes exactly
/// `G91`, the move and `G90`, in this order, with a flush first and a
/// poll of each acknowledgement in between, and completes with the robot
/// synchronized.
pub proof fn lemma_acknowledged_jog_wire_sequence(
    command: Seq<char>,
    t: Seq<u128>,
    acks: Seq<Vec<u8>>,
)
    requires
        t.len() == 6,
        acks.len() == 3,
        t[0] <= t[1] && t[1] - t[0] < 2_000_000_000,
        t[2] <= t[3] && t[3] - t[2] < 5_000_000_000,
        t[4] <= t[5] && t[5] - t[4] < 2_000_000_000,
        forall|i: int|
            0 <= i < 3 ==> acks[i]@.len() > 0 && #[trigger] holds_ok_line(lossy_utf8(acks[i]@)),
    ensures
        ({
            let (x, desync, actions) = run(
                ExchangeState::jog(false, true, command),
                false,
                acknowledged_jog_events(t, acks),
            );
            &&& actions == seq![
                Action::Flush,
                Action::Write(Command::Relative),
                Action::ReadClock,
                Action::ReadClock,
                Action::Read,
                Action::Write(Command::Move),
                Action::ReadClock,
                Action::ReadClock,
                Action::Read,
                Action::Write(Command::Absolute),
                Action::ReadClock,
                Action::ReadClock,
                Action::Read,
                Action::Finish(Ok(Done::Moved)),
            ]
            &&& !desync
            &&& x.stage == Stage::Finished(Ok(Done::Moved))
        }),
{
    let e = acknowledged_jog_events(t, acks);
    let acts = seq![
        Action::Flush,
        Action::Write(Command::Relative),
        Action::ReadClock,
        Action::ReadClock,
        Action::Read,
        Action::Write(Command::Move),
        Action::ReadClock,
        Action::ReadClock,
        Action::Read,
        Action::Write(Command::Absolute),
        Action::ReadClock,
        Action::ReadClock,
        Action::Read,
        Action::Finish(Ok(Done::Moved)),
    ];
    assert(holds_ok_line(lossy_utf8(acks[0]@)));
    assert(holds_ok_line(lossy_utf8(acks[1]@)));
    assert(holds_ok_line(lossy_utf8(acks[2]@)));
    assert(Seq::<char>::empty() + lossy_utf8(acks[0]@) =~= lossy_utf8(acks[0]@));
    assert(Seq::<char>::empty() + lossy_utf8(acks[1]@) =~= lossy_utf8(acks[1]@));
    assert(Seq::<char>::empty() + lossy_utf8(acks[2]@) =~= lossy_utf8(acks[2]@));
    let s0 = ExchangeState::jog(false, true, command);
    let (s1, f1, a0) = s0.step(false, e[0]);
    let (s2, f2, a1) = s1.step(f1, e[1]);
    let (s3, f3, a2) = s2.step(f2, e[2]);
    let (s4, f4, a3) = s3.step(f3, e[3]);
    let (s5, f5, a4) = s4.step(f4, e[4]);
    let (s6, f6, a5) = s5.step(f5, e[5]);
    let (s7, f7, a6) = s6.step(f6, e[6]);
    let (s8, f8, a7) = s7.step(f7, e[7]);
    let (s9, f9, a8) = s8.step(f8, e[8]);
    let (s10, f10, a9) = s9.step(f9, e[9]);
    let (s11, f11, a10) = s10.step(f10, e[10]);
    let (s12, f12, a11) = s11.step(f11, e[11]);
    let (s13, f13, a12) = s12.step(f12, e[12]);
    let (s14, f14, a13) = s13.step(f13, e[13]);
    assert(a0 == acts[0] && s1.stage == Stage::JogFlushing && !f1);
    assert(a1 == acts[1] && s2.stage == Stage::JogRelativeSent && !f2);
    assert(a2 == acts[2] && s3.stage == Stage::JogRelativeWait && !f3);
    assert(a3 == acts[3] && s4.stage == Stage::JogRelativeWait && !f4);
    assert(a4 == acts[4] && s5.stage == Stage::JogRelativeWait && !f5);
    assert(a5 == acts[5] && s6.stage == Stage::JogMoveSent && !f6);
    assert(a6 == acts[6] && s7.stage == Stage::JogMoveWait && !f7);
    assert(a7 == acts[7] && s8.stage == Stage::JogMoveWait && !f8);
    assert(a8 == acts[8] && s9.stage == Stage::JogMoveWait && !f9);
    assert(a9 == acts[9] && s10.stage == Stage::JogAbsoluteSent && !f10);
    assert(a10 == acts[10] && s11.stage == Stage::JogAbsoluteWait && !f11);
    assert(a11 == acts[11] && s12.stage == Stage::JogAbsoluteWait && !f12);
    assert(a12 == acts[12] && s13.stage == Stage::JogAbsoluteWait && !f13);
    assert(a13 == acts[13] && s14.stage == Stage::Finished(Ok(Done::Moved)) && !f14);
    let states = seq![s0, s1, s2, s3, s4, s5, s6, s7, s8, s9, s10, s11, s12, s13, s14];
    let flags = seq![false, f1, f2, f3, f4, f5, f6, f7, f8, f9, f10, f11, f12, f13, f14];
    assert forall|k: int| 0 <= k < e.len() implies #[trigger] states[k].step(flags[k], e[k]) == (
        states[k + 1],
        flags[k + 1],
        acts[k],
    ) by {
        if k == 0 {
        } else if k == 1 {
        } else if k == 2 {
        } else if k == 3 {
        } else if k == 4 {
        } else if k == 5 {
        } else if k == 6 {
        } else if k == 7 {
        } else if k == 8 {
        } else if k == 9 {
        } else if k == 10 {
        } else if k == 11 {
        } else if k == 12 {
        } else {
        }
    }
    lemma_run_chain(states, flags, e, acts);
}

/// The wire contract of a homing: when `G28` is written and an `ok` line
/// arrives within 10 s, the homing writes exactly `G28` after a flush and
/// completes with the robot synchronized, whatever its state before.
pub proof fn lemma_acknowledged_homing_wire_sequence(
    desync: bool,
    t0: u128,
    t1: u128,
    ack: Vec<u8>,
)
    requires
        t0 <= t1 && t1 - t0 < 10_000_000_000,
        ack@.len() > 0,
        holds_ok_line(lossy_utf8(ack@)),
    ensures
        ({
            let events = seq![
                Event::Ready,
                Event::Ready,
                Event::Written(true),
                Event::Clock(t0),
                Event::Clock(t1),
                Event::Received(Some(ack)),
            ];
            let (x, flag, actions) = run(
                ExchangeState::starting(Stage::HomeStart),
                desync,
                events,
            );
            &&& actions == seq![
                Action::Flush,
                Action::Write(Command::Homing),
                Action::ReadClock,
                Action::ReadClock,
                Action::Read,
                Action::Finish(Ok(Done::Homed)),
            ]
            &&& !flag
            &&& x.stage == Stage::Finished(Ok(Done::Homed))
        }),
{
    let e = seq![
        Event::Ready,
        Event::Ready,
        Event::Written(true),
        Event::Clock(t0),
        Event::Clock(t1),
        Event::Received(Some(ack)),
    ];
    let acts = seq![
        Action::Flush,
        Action::Write(Command::Homing),
        Action::ReadClock,
        Action::ReadClock,
        Action::Read,
        Action::Finish(Ok(Done::Homed)),
    ];
    assert(Seq::<char>::empty() + lossy_utf8(ack@) =~= lossy_utf8(ack@));
    let s0 = ExchangeState::starting(Stage::HomeStart);
    let (s1, f1, a0) = s0.step(desync, e[0]);
    let (s2, f2, a1) = s1.step(f1, e[1]);
    let (s3, f3, a2) = s2.step(f2, e[2]);
    let (s4, f4, a3) = s3.step(f3, e[3]);
    let (s5, f5, a4) = s4.step(f4, e[4]);
    let (s6, f6, a5) = s5.step(f5, e[5]);
    assert(a0 == acts[0] && a1 == acts[1] && a2 == acts[2]);
    assert(a3 == acts[3] && a4 == acts[4] && s5.stage == Stage::HomeWait);
    assert(a5 == acts[5] && !f6 && s6.stage == Stage::Finished(Ok(Done::Homed)));
    let states = seq![s0, s1, s2, s3, s4, s5, s6];
    let flags = seq![desync, f1, f2, f3, f4, f5, f6];
    assert forall|k: int| 0 <= k < e.len() implies #[trigger] states[k].step(flags[k], e[k]) == (
        states[k + 1],
        flags[k + 1],
        acts[k],
    ) by {
        if k == 0 {
        } else if k == 1 {
        } else if k == 2 {
        } else if k == 3 {
        } else if k == 4 {
        } else {
        }
    }
    lemma_run_chain(states, flags, e, acts);
}

/// The wire contract of a connection: when the robot answers `IsDelta` with
/// a text holding `YesDelta` and `Position` with a complete position line,
/// each within 2 s, the connection writes exactly `IsDelta` then
/// `Position`, each after a flush, and ends synchronized with the position
/// the robot reported.
pub proof fn lemma_connection_wire_sequence(
    desync: bool,
    t: Seq<u128>,
    identity: Vec<u8>,
    report: Vec<u8>,
)
    requires
        t.len() == 4,
        t[0] <= t[1] && t[1] - t[0] < 2_000_000_000,
        t[2] <= t[3] && t[3] - t[2] < 2_000_000_000,
        identity@.len() > 0,
        reports_identity(lossy_utf8(identity@)),
        report@.len() > 0,
        position_report(complete_part(lossy_utf8(report@))) is Some,
    ensures
        ({
            let events = seq![
                Event::Ready,
                Event::Ready,
                Event::Written(true),
                Event::Clock(t[0]),
                Event::Clock(t[1]),
                Event::Received(Some(identity)),
                Event::Ready,
                Event::Written(true),
                Event::Clock(t[2]),
                Event::Clock(t[3]),
                Event::Received(Some(report)),
            ];
            let (x, flag, actions) = run(
                ExchangeState::starting(Stage::ConnectStart),
                desync,
                events,
            );
            &&& actions == seq![
                Action::Flush,
                Action::Write(Command::Identity),
                Action::ReadClock,
                Action::ReadClock,
                Action::Read,
                Action::Flush,
                Action::Write(Command::Position),
                Action::ReadClock,
                Action::ReadClock,
                Action::Read,
                Action::Finish(Ok(Done::Connected { synced: true })),
            ]
            &&& !flag
            &&& x.position == position_report(complete_part(lossy_utf8(report@)))
        }),
{
    let e = seq![
        Event::Ready,
        Event::Ready,
        Event::Written(true),
        Event::Clock(t[0]),
        Event::Clock(t[1]),
        Event::Received(Some(identity)),
        Event::Ready,
        Event::Written(true),
        Event::Clock(t[2]),
        Event::Clock(t[3]),
        Event::Received(Some(report)),
    ];
    let acts = seq![
        Action::Flush,
        Action::Write(Command::Identity),
        Action::ReadClock,
        Action::ReadClock,
        Action::Read,
        Action::Flush,
        Action::Write(Command::Position),
        Action::ReadClock,
        Action::ReadClock,
        Action::Read,
        Action::Finish(Ok(Done::Connected { synced: true })),
    ];
    assert(Seq::<char>::empty() + lossy_utf8(identity@) =~= lossy_utf8(identity@));
    assert(Seq::<char>::empty() + lossy_utf8(report@) =~= lossy_utf8(report@));
    let s0 = ExchangeState::starting(Stage::ConnectStart);
    let (s1, f1, a0) = s0.step(desync, e[0]);
    let (s2, f2, a1) = s1.step(f1, e[1]);
    let (s3, f3, a2) = s2.step(f2, e[2]);
    let (s4, f4, a3) = s3.step(f3, e[3]);
    let (s5, f5, a4) = s4.step(f4, e[4]);
    let (s6, f6, a5) = s5.step(f5, e[5]);
    let (s7, f7, a6) = s6.step(f6, e[6]);
    let (s8, f8, a7) = s7.step(f7, e[7]);
    let (s9, f9, a8) = s8.step(f8, e[8]);
    let (s10, f10, a9) = s9.step(f9, e[9]);
    let (s11, f11, a10) = s10.step(f10, e[10]);
    assert(a0 == acts[0] && a1 == acts[1] && a2 == acts[2]);
    assert(a3 == acts[3] && a4 == acts[4] && s5.stage == Stage::IdentityWait);
    assert(a5 == acts[5] && s6.stage == Stage::PositionFlushing);
    assert(a6 == acts[6] && a7 == acts[7] && a8 == acts[8] && a9 == acts[9]);
    assert(s10.stage == Stage::PositionWait && s10.wait.buffer == Seq::<char>::empty());
    assert(a10 == acts[10] && !f11);
    let states = seq![s0, s1, s2, s3, s4, s5, s6, s7, s8, s9, s10, s11];
    let flags = seq![desync, f1, f2, f3, f4, f5, f6, f7, f8, f9, f10, f11];
    assert forall|k: int| 0 <= k < e.len() implies #[trigger] states[k].step(flags[k], e[k]) == (
        states[k + 1],
        flags[k + 1],
        acts[k],
    ) by {
        if k == 0 {
        } else if k == 1 {
        } else if k == 2 {
        } else if k == 3 {
        } else if k == 4 {
        } else if k == 5 {
        } else if k == 6 {
        } else if k == 7 {
        } else if k == 8 {
        } else if k == 9 {
        } else {
        }
    }
    lemma_run_chain(states, flags, e, acts);
}

/// A wait decides on everything received so far, never on the last read
/// alone: a non-empty read is appended, decoded, to what came before, and
/// the wait ends with the reply exactly when the whole text holds it (an
/// `ok` line for an acknowledgement, a complete position line for a
/// position, `YesDelta` in some letter case for an identity); otherwise it
/// sleeps and polls again. An empty read never ends it.
pub proof fn lemma_wait_decides_on_all_text_received(w: WaitState, data: Vec<u8>)
    ensures
        ({
            let step = w.on(Event::Received(Some(data)));
            let text = w.buffer + lossy_utf8(data@);
            &&& data@.len() > 0 ==> step.0.buffer == text
            &&& data@.len() == 0 ==> step.0.buffer == w.buffer && step.1 != WaitOutcome::Matched
            &&& w.reply == Reply::Ack ==> (step.1 == WaitOutcome::Matched <==> data@.len() > 0
                && holds_ok_line(text))
            &&& w.reply == Reply::Position ==> (step.1 == WaitOutcome::Matched <==> data@.len()
                > 0 && position_report(complete_part(text)) is Some)
            &&& w.reply == Reply::Identity ==> (step.1 == WaitOutcome::Matched <==> data@.len()
                > 0 && reports_identity(text))
            &&& step.1 != WaitOutcome::Matched ==> step.0.phase == WaitPhase::Sleeping
                && step.1 is Pending
            &&& step.0.reply == w.reply && step.0.start == w.start
        }),
{
}

/// An identity answer split across two reads is recognized: when the first
/// read does not yet hold it, the wait sleeps, checks the clock within its
/// timeout, reads again, and ends with the identity exactly when the two
/// reads together, after what came before, hold `YesDelta`.
pub proof fn lemma_identity_split_across_reads(
    w: WaitState,
    first: Vec<u8>,
    now: u128,
    second: Vec<u8>,
)
    requires
        w.reply == Reply::Identity,
        w.phase == WaitPhase::Reading,
        first@.len() > 0,
        second@.len() > 0,
        !reports_identity(w.buffer + lossy_utf8(first@)),
        now >= w.start,
        now - w.start < w.timeout_secs * 1_000_000_000,
    ensures
        ({
            let w1 = w.on(Event::Received(Some(first))).0;
            let w2 = w1.on(Event::Ready).0;
            let w3 = w2.on(Event::Clock(now)).0;
            let last = w3.on(Event::Received(Some(second)));
            &&& w.on(Event::Received(Some(first))).1 == WaitOutcome::Pending(Action::Sleep(50))
            &&& w2.on(Event::Clock(now)).1 == WaitOutcome::Pending(Action::Read)
            &&& (last.1 == WaitOutcome::Matched <==> reports_identity(
                w.buffer + lossy_utf8(first@) + lossy_utf8(second@),
            ))
        }),
{
}

/// A connection goes on to read the position only once the identity wait
/// has received text holding `YesDelta` in some letter case: an `ok` line
/// or any other answer of a device that is not a Delta robot never passes
/// the handshake.
pub proof fn lemma_handshake_needs_identity(
    x: ExchangeState,
    desync: bool,
    before: bool,
    event: Event,
)
    requires
        connect_invariant(x, desync, before),
        x.stage == Stage::IdentityWait,
        x.step(desync, event).0.stage == Stage::PositionFlushing,
    ensures
        reports_identity(x.step(desync, event).0.wait.buffer),
        x.step(desync, event).1 == desync,
        x.step(desync, event).2 == Action::Flush,
{
}

/// An identity wait that did not receive `YesDelta` never lets the
/// connection on: a step from it either keeps waiting or closes the
/// transport towards a failure.
pub proof fn lemma_no_identity_no_connection(
    x: ExchangeState,
    desync: bool,
    before: bool,
    event: Event,
)
    requires
        connect_invariant(x, desync, before),
        x.stage == Stage::IdentityWait,
        x.expects(event),
        !reports_identity(x.wait.on(event).0.buffer),
    ensures
        x.step(desync, event).0.stage == Stage::IdentityWait || (x.step(desync, event).0.stage
            is Closing && x.step(desync, event).2 == Action::Close),
        x.step(desync, event).1 == desync,
{
}

/// Only a homing that was acknowledged, or a connection that read the
/// position back, clears the desynchronized state: whatever the exchange
/// and the event, a step that turns a set flag into a clear one ends the
/// exchange with `Homed` or with a synchronized connection.
pub proof fn lemma_only_success_clears_desync(x: ExchangeState, event: Event)
    requires
        !x.step(true, event).1,
    ensures
        x.step(true, event).2 == Action::Finish(Ok(Done::Homed)) || x.step(true, event).2
            == Action::Finish(Ok(Done::Connected { synced: true })),
{
}

/// A homing whose `G28` could not be written fails with the write error
/// and leaves the desynchronized state exactly as it was.
pub proof fn lemma_failed_homing_write_keeps_flag(x: ExchangeState, desync: bool)
    requires
        x.stage == Stage::HomeSent,
    ensures
        x.step(desync, Event::Written(false)) == (
            x.at(Stage::Finished(Err(Failure::WriteFailed))),
            desync,
            Action::Finish(Err(Failure::WriteFailed)),
        ),
{
}

/// A jog that has written its first command.
pub open spec fn jog_under_way(stage: Stage) -> bool {
    match stage {
        Stage::JogRelativeSent | Stage::JogRelativeWait | Stage::JogMoveSent | Stage::JogMoveWait
        | Stage::JogAbsoluteSent | Stage::JogAbsoluteWait => true,
        _ => false,
    }
}

/// A jog under way never ends on a failure directly: each step either
/// stays in the jog, completes it, or turns to the recovery, which writes
/// `G90` at once or right after closing the transport.
pub proof fn lemma_jog_failure_goes_through_recovery(x: ExchangeState, desync: bool, event: Event)
    requires
        jog_under_way(x.stage),
    ensures
        ({
            let (next, flag, action) = x.step(desync, event);
            ||| jog_under_way(next.stage)
            ||| next.stage == Stage::Finished(Ok(Done::Moved))
            ||| (next.stage is RecoverSent && flag && action == Action::Write(Command::Absolute))
            ||| (next.stage matches Stage::Closing(Then::Recover(_)) && flag && action
                == Action::Close)
        }),
{
}

/// The recovery of a failed jog writes `G90`: once the transport is closed
/// it asks for the write, and after the write (whatever its result) it
/// waits for the acknowledgement; it ends with the original failure only
/// from that wait or the closing that follows it.
pub proof fn lemma_recovery_writes_absolute(x: ExchangeState, desync: bool, cause: Failure)
    ensures
        x.at(Stage::Closing(Then::Recover(cause))).step(desync, Event::Ready) == (
            x.at(Stage::RecoverSent(cause)),
            true,
            Action::Write(Command::Absolute),
        ),
        forall|ok: bool|
            #![trigger x.at(Stage::RecoverSent(cause)).step(desync, Event::Written(ok))]
            x.at(Stage::RecoverSent(cause)).step(desync, Event::Written(ok)).0.stage
                == Stage::RecoverWait(cause) && x.at(Stage::RecoverSent(cause)).step(
                desync,
                Event::Written(ok),
            ).0.wait.reply == Reply::Ack,
{
}

/// A jog step that ends the jog with a failure after its first write comes
/// only from the wait for the recovery's `G90` acknowledgement, or from the
/// closing that follows a lost link in that wait.
pub proof fn lemma_failed_jog_ends_after_recovery(x: ExchangeState, desync: bool, event: Event)
    requires
        jog_invariant(x, desync),
        x.stage != Stage::JogStart,
        !(x.stage is Finished),
        x.step(desync, event).0.stage matches Stage::Finished(Err(c)) && is_midway(c),
    ensures
        x.stage is RecoverWait || x.stage matches Stage::Closing(Then::Finish(_)),
{
}

/// A position wait reads the coordinates from the complete lines: when
/// the text received so far is `a`, a line feed, then a partial line `b`,
/// the wait ends with the position exactly when `a` (all of it, report
/// lines before the coordinate line included) holds a position report, and
/// a connection that then completes keeps that report.
pub proof fn lemma_position_read_from_complete_lines(
    x: ExchangeState,
    desync: bool,
    data: Vec<u8>,
    a: Seq<char>,
    b: Seq<char>,
)
    requires
        x.stage == Stage::PositionWait,
        x.wait.reply == Reply::Position,
        x.wait.phase == WaitPhase::Reading,
        data@.len() > 0,
        x.wait.buffer + lossy_utf8(data@) == a + seq!['\n'] + b,
        !b.contains('\n'),
    ensures
        x.wait.on(Event::Received(Some(data))).1 == WaitOutcome::Matched <==> position_report(a) is Some,
        position_report(a) is Some ==> x.step(desync, Event::Received(Some(data))) == (
            ExchangeState {
                stage: Stage::Finished(Ok(Done::Connected { synced: true })),
                wait: x.wait.on(Event::Received(Some(data))).0,
                position: position_report(a),
                ..x
            },
            false,
            Action::Finish(Ok(Done::Connected { synced: true })),
        ),
{
    crate::text::lemma_complete_part_ends_at_last_line_feed(a, b);
    lemma_wait_decides_on_all_text_received(x.wait, data);
}

} // verus!
