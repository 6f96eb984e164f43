//! The command exchanges between the robot worker and the firmware.
//!
//! Each robot operation (a jog, a homing, a connection) is an exchange: a
//! sequence of flushes, writes and polling waits for a reply, with its own
//! handling of every failure. The worker performs the I/O an exchange asks
//! for and hands back what happened ([`Exchange::advance`]); the exchange
//! decides the next step and keeps the robot's desynchronized state, the
//! flag that refuses any move until a homing succeeds after a command
//! sequence failed midway.

use crate::gcode::{
    create_mv_command, absolute_mode, absolute_mode_bytes, homing, homing_bytes, identity_query,
    identity_query_bytes, move_command, position_query, position_query_bytes, relative_mode,
    relative_mode_bytes, wire, Axis,
};
use crate::text::{
    complete_lines, complete_part, holds_ok_line, identity_in, ok_line_in, position_in,
    position_report, reports_identity, PositionText,
};
use vstd::prelude::*;

verus! {

/// The reply a wait looks for.
#[derive(Debug, Clone, Copy, PartialEq, Eq, Structural)]
pub enum Reply {
    /// A line that is exactly `ok` (the `FEEDBACK:ok` acknowledgement).
    Ack,
    /// A complete line holding X, Y and Z values.
    Position,
    /// `YesDelta`, in any case.
    Identity,
}

/// Why an exchange failed.
#[derive(Debug, Clone, Copy, PartialEq, Eq, Structural)]
pub enum Failure {
    /// A move was refused: a failed sequence left the state desynchronized,
    /// and a homing is required first.
    Desynchronized,
    /// A move was refused: it would leave the software limits.
    OutOfLimits,
    /// Writing to the transport failed.
    WriteFailed,
    /// Reading from the transport failed: the link is lost.
    LinkLost,
    /// The awaited reply did not come in time.
    Timeout,
}

/// What a successful exchange achieved.
#[derive(Debug, Clone, Copy, PartialEq, Eq, Structural)]
pub enum Done {
    /// The jog was executed and acknowledged: the tracked position moves by
    /// the displacement.
    Moved,
    /// The homing was acknowledged: the tracked position is the origin.
    Homed,
    /// The robot identified itself. When `synced`, its position report is in
    /// [`Exchange::position`] and becomes the tracked position.
    Connected { synced: bool },
}

/// A command the exchange writes.
#[derive(Debug, Clone, Copy, PartialEq, Eq, Structural)]
pub enum Command {
    /// `IsDelta`.
    Identity,
    /// `Position`.
    Position,
    /// `G91` (relative positioning).
    Relative,
    /// The jog's `G0` move.
    Move,
    /// `G90` (absolute positioning).
    Absolute,
    /// `G28` (homing).
    Homing,
}

/// What the worker must do next for an exchange.
#[derive(Debug, Clone, Copy, PartialEq, Eq)]
pub enum Action {
    /// Discard pending input; answer [`Event::Ready`].
    Flush,
    /// Write the bytes of the command ([`Exchange::bytes_of`]); answer
    /// [`Event::Written`].
    Write(Command),
    /// Read the clock; answer [`Event::Clock`].
    ReadClock,
    /// Read the available input; answer [`Event::Received`].
    Read,
    /// Sleep this many milliseconds; answer [`Event::Ready`].
    Sleep(u64),
    /// Close the transport; answer [`Event::Ready`].
    Close,
    /// The exchange is over with this result.
    Finish(Result<Done, Failure>),
}

/// What happened to the last action.
pub enum Event {
    /// A flush, sleep or close was done (also starts an exchange).
    Ready,
    /// A write was done; `true` when it succeeded.
    Written(bool),
    /// The clock reads this many nanoseconds.
    Clock(u128),
    /// A read gave these bytes (possibly none); `None` when the read failed.
    Received(Option<Vec<u8>>),
}

/// Where a polling wait stands.
#[derive(Debug, Clone, Copy, PartialEq, Eq, Structural)]
pub enum WaitPhase {
    /// The clock is read for the start time.
    Starting,
    /// The clock is read to check the timeout.
    Checking,
    /// The input is read.
    Reading,
    /// The worker sleeps between polls.
    Sleeping,
}

/// How a wait step ended.
#[derive(Debug, Clone, Copy, PartialEq, Eq)]
pub enum WaitOutcome {
    /// The wait goes on with this action.
    Pending(Action),
    /// The awaited reply arrived.
    Matched,
    /// A read failed.
    LinkLost,
    /// The timeout passed first.
    TimedOut,
}

/// The abstract state of a polling wait.
pub struct WaitState {
    /// The awaited reply.
    pub reply: Reply,
    /// The timeout in seconds.
    pub timeout_secs: u64,
    /// The clock reading at the start, in nanoseconds.
    pub start: u128,
    /// Where the wait stands.
    pub phase: WaitPhase,
    /// Everything received so far, decoded.
    pub buffer: Seq<char>,
}

/// Milliseconds slept between two polls for `reply`.
pub open spec fn poll_interval_ms(reply: Reply) -> u64 {
    match reply {
        Reply::Identity => 50,
        _ => 10,
    }
}

/// The text received so far holds the awaited reply.
pub open spec fn reply_arrived(reply: Reply, buffer: Seq<char>) -> bool {
    match reply {
        Reply::Ack => holds_ok_line(buffer),
        Reply::Position => position_report(complete_part(buffer)) is Some,
        Reply::Identity => reports_identity(buffer),
    }
}

/// The bytes of a read that received a non-empty chunk of valid UTF-8.
pub open spec fn utf8_chunk(event: Event) -> Option<Seq<u8>> {
    match event {
        Event::Received(Some(data)) => if data@.len() > 0 && vstd::utf8::valid_utf8(data@) {
            Some(data@)
        } else {
            None
        },
        _ => None,
    }
}

/// What `String::from_utf8_lossy` makes of `bytes`: the name of a result
/// that depends on the bytes alone.
pub uninterp spec fn lossy_utf8(bytes: Seq<u8>) -> Seq<char>;

/// Decodes received bytes with `String::from_utf8_lossy`. Claimed: the
/// result depends on the bytes alone, and valid UTF-8 decodes to the
/// characters it encodes. Not stated: which replacement characters stand for
/// invalid sequences.
#[verifier::external_body]
fn decode_lossy(bytes: &[u8]) -> (text: Vec<char>)
    ensures
        text@ == lossy_utf8(bytes@),
        vstd::utf8::valid_utf8(bytes@) ==> text@ == vstd::utf8::decode_utf8(bytes@),
{
    String::from_utf8_lossy(bytes).chars().collect()
}

impl WaitState {
    /// A wait for `reply` with a timeout of `timeout_secs` seconds, about to
    /// read the clock for its start time.
    pub open spec fn begin(reply: Reply, timeout_secs: u64) -> WaitState {
        WaitState {
            reply,
            timeout_secs,
            start: 0,
            phase: WaitPhase::Starting,
            buffer: Seq::empty(),
        }
    }

    /// The action the wait asked for last.
    pub open spec fn pending(self) -> Action {
        match self.phase {
            WaitPhase::Starting | WaitPhase::Checking => Action::ReadClock,
            WaitPhase::Reading => Action::Read,
            WaitPhase::Sleeping => Action::Sleep(poll_interval_ms(self.reply)),
        }
    }

    /// `event` answers the pending action.
    pub open spec fn expects(self, event: Event) -> bool {
        match self.phase {
            WaitPhase::Starting | WaitPhase::Checking => event is Clock,
            WaitPhase::Reading => event is Received,
            WaitPhase::Sleeping => event is Ready,
        }
    }

    /// The clock reading is not earlier than the start (a clock that runs
    /// backwards makes the duration subtraction fail).
    pub open spec fn accepts(self, event: Event) -> bool {
        match event {
            Event::Clock(now) => self.phase == WaitPhase::Checking ==> now >= self.start,
            _ => true,
        }
    }

    /// The wait's step on an event that answers its pending action.
    pub open spec fn on(self, event: Event) -> (WaitState, WaitOutcome) {
        match event {
            Event::Clock(now) => if self.phase == WaitPhase::Starting {
                (
                    WaitState { start: now, phase: WaitPhase::Checking, ..self },
                    WaitOutcome::Pending(Action::ReadClock),
                )
            } else if now - self.start < self.timeout_secs * 1_000_000_000 {
                (
                    WaitState { phase: WaitPhase::Reading, ..self },
                    WaitOutcome::Pending(Action::Read),
                )
            } else {
                (self, WaitOutcome::TimedOut)
            },
            Event::Received(None) => (self, WaitOutcome::LinkLost),
            Event::Received(Some(data)) => {
                let buffer = if data@.len() > 0 {
                    self.buffer + lossy_utf8(data@)
                } else {
                    self.buffer
                };
                if data@.len() > 0 && reply_arrived(self.reply, buffer) {
                    (WaitState { buffer, ..self }, WaitOutcome::Matched)
                } else {
                    (
                        WaitState { buffer, phase: WaitPhase::Sleeping, ..self },
                        WaitOutcome::Pending(Action::Sleep(poll_interval_ms(self.reply))),
                    )
                }
            },
            Event::Ready => (
                WaitState { phase: WaitPhase::Checking, ..self },
                WaitOutcome::Pending(Action::ReadClock),
            ),
            Event::Written(_) => (self, WaitOutcome::Pending(self.pending())),
        }
    }
}

/// A polling wait for a reply: read the clock, then until the timeout has
/// passed read the input, decode it, and look for the reply, sleeping
/// between polls.
pub struct Wait {
    reply: Reply,
    timeout_secs: u64,
    start: u128,
    phase: WaitPhase,
    buffer: Vec<char>,
}

impl View for Wait {
    type V = WaitState;

    closed spec fn view(&self) -> WaitState {
        WaitState {
            reply: self.reply,
            timeout_secs: self.timeout_secs,
            start: self.start,
            phase: self.phase,
            buffer: self.buffer@,
        }
    }
}

/// Whether the reply arrived in `buffer`, as [`reply_arrived`] defines it.
pub fn reply_in(reply: Reply, buffer: &[char]) -> (r: bool)
    ensures
        r == reply_arrived(reply, buffer@),
{
    match reply {
        Reply::Ack => ok_line_in(buffer),
        Reply::Position => {
            let complete = complete_lines(buffer);
            position_in(complete.as_slice()).is_some()
        },
        Reply::Identity => identity_in(buffer),
    }
}

impl Wait {
    /// A wait for `reply` with a timeout of `timeout_secs` seconds; its
    /// first action is [`Action::ReadClock`], for the start time.
    pub fn begin(reply: Reply, timeout_secs: u64) -> (w: Wait)
        ensures
            w@ == WaitState::begin(reply, timeout_secs),
    {
        Wait { reply, timeout_secs, start: 0, phase: WaitPhase::Starting, buffer: Vec::new() }
    }

    /// The action asked for last.
    pub fn pending(&self) -> (a: Action)
        ensures
            a == self@.pending(),
    {
        match self.phase {
            WaitPhase::Starting | WaitPhase::Checking => Action::ReadClock,
            WaitPhase::Reading => Action::Read,
            WaitPhase::Sleeping => Action::Sleep(
                match self.reply {
                    Reply::Identity => 50,
                    _ => 10,
                },
            ),
        }
    }

    /// Whether `event` answers the action asked for last.
    pub fn expects(&self, event: &Event) -> (r: bool)
        ensures
            r == self@.expects(*event),
    {
        match self.phase {
            WaitPhase::Starting | WaitPhase::Checking => matches!(event, Event::Clock(_)),
            WaitPhase::Reading => matches!(event, Event::Received(_)),
            WaitPhase::Sleeping => matches!(event, Event::Ready),
        }
    }

    /// Whether a clock reading in `event` is not earlier than the start.
    pub fn accepts(&self, event: &Event) -> (r: bool)
        ensures
            r == self@.accepts(*event),
    {
        match event {
            Event::Clock(now) => !(self.phase == WaitPhase::Checking) || *now >= self.start,
            _ => true,
        }
    }

    /// Decides the next step of the wait from the `event` that answers the
    /// last action: go on with an action, or end (reply arrived, link lost,
    /// timed out).
    pub fn on(&mut self, event: Event) -> (outcome: WaitOutcome)
        requires
            old(self)@.expects(event),
            old(self)@.accepts(event),
        ensures
            (final(self)@, outcome) == old(self)@.on(event),
            utf8_chunk(event) is Some ==> final(self)@.buffer == old(self)@.buffer
                + vstd::utf8::decode_utf8(utf8_chunk(event)->0),
    {
        match event {
            Event::Clock(now) => {
                if self.phase == WaitPhase::Starting {
                    self.start = now;
                    self.phase = WaitPhase::Checking;
                    WaitOutcome::Pending(Action::ReadClock)
                } else if now - self.start < (self.timeout_secs as u128) * 1_000_000_000 {
                    self.phase = WaitPhase::Reading;
                    WaitOutcome::Pending(Action::Read)
                } else {
                    WaitOutcome::TimedOut
                }
            },
            Event::Received(None) => WaitOutcome::LinkLost,
            Event::Received(Some(data)) => {
                let nonempty = data.len() > 0;
                if nonempty {
                    let text = decode_lossy(data.as_slice());
                    let mut i: usize = 0;
                    let ghost before = self.buffer@;
                    while i < text.len()
                        invariant
                            i <= text@.len(),
                            self.buffer@ == before + text@.take(i as int),
                            self.reply == old(self).reply,
                            self.timeout_secs == old(self).timeout_secs,
                            self.start == old(self).start,
                            self.phase == old(self).phase,
                        decreases text.len() - i,
                    {
                        self.buffer.push(text[i]);
                        i = i + 1;
                        assert(self.buffer@ =~= before + text@.take(i as int));
                    }
                    assert(text@.take(text@.len() as int) =~= text@);
                }
                if nonempty && reply_in(self.reply, self.buffer.as_slice()) {
                    WaitOutcome::Matched
                } else {
                    self.phase = WaitPhase::Sleeping;
                    WaitOutcome::Pending(
                        Action::Sleep(
                            match self.reply {
                                Reply::Identity => 50,
                                _ => 10,
                            },
                        ),
                    )
                }
            },
            Event::Ready => {
                self.phase = WaitPhase::Checking;
                WaitOutcome::Pending(Action::ReadClock)
            },
            Event::Written(_) => WaitOutcome::Pending(self.pending()),
        }
    }
}

/// What follows the closing of the transport.
#[derive(Debug, Clone, Copy, PartialEq, Eq)]
pub enum Then {
    /// The attempt to restore absolute positioning after a failed jog.
    Recover(Failure),
    /// The end of the exchange with this result.
    Finish(Result<Done, Failure>),
}

/// Where an exchange stands: the action named is the one last asked for.
#[derive(Debug, Clone, Copy, PartialEq, Eq)]
pub enum Stage {
    /// A jog that has not started.
    JogStart,
    /// Jog: the input flush.
    JogFlushing,
    /// Jog: the write of `G91`.
    JogRelativeSent,
    /// Jog: the wait for the `G91` acknowledgement (2 s).
    JogRelativeWait,
    /// Jog: the write of the move.
    JogMoveSent,
    /// Jog: the wait for the move acknowledgement (5 s).
    JogMoveWait,
    /// Jog: the write of `G90`.
    JogAbsoluteSent,
    /// Jog: the wait for the `G90` acknowledgement (2 s).
    JogAbsoluteWait,
    /// A failed jog: the best-effort write of `G90`.
    RecoverSent(Failure),
    /// A failed jog: the wait for the `G90` acknowledgement (2 s).
    RecoverWait(Failure),
    /// A homing that has not started.
    HomeStart,
    /// Homing: the input flush.
    HomeFlushing,
    /// Homing: the write of `G28`.
    HomeSent,
    /// Homing: the wait for its acknowledgement (10 s).
    HomeWait,
    /// A connection (the transport is open) that has not started.
    ConnectStart,
    /// Connection: the input flush before the identity query.
    IdentityFlushing,
    /// Connection: the write of `IsDelta`.
    IdentitySent,
    /// Connection: the wait for `YesDelta` (2 s, polled every 50 ms).
    IdentityWait,
    /// Connection: the input flush before the position query.
    PositionFlushing,
    /// Connection: the write of `Position`.
    PositionSent,
    /// Connection: the wait for a complete position line (2 s).
    PositionWait,
    /// The transport is being closed.
    Closing(Then),
    /// The exchange is over with this result.
    Finished(Result<Done, Failure>),
}

/// The abstract state of an [`Exchange`].
pub struct ExchangeState {
    /// Where the exchange stands.
    pub stage: Stage,
    /// The text of the jog's move command.
    pub command: Seq<char>,
    /// The current (or last) polling wait.
    pub wait: WaitState,
    /// The position report a connection read, once it has read one.
    pub position: Option<(Seq<char>, Seq<char>, Seq<char>)>,
}

impl ExchangeState {
    /// A jog by the move command `command`. A desynchronized state refuses
    /// it first, then a move outside the software limits, both before any
    /// I/O.
    pub open spec fn jog(desynchronized: bool, within_limits: bool, command: Seq<char>) -> ExchangeState {
        ExchangeState {
            stage: if desynchronized {
                Stage::Finished(Err(Failure::Desynchronized))
            } else if !within_limits {
                Stage::Finished(Err(Failure::OutOfLimits))
            } else {
                Stage::JogStart
            },
            command,
            wait: WaitState::begin(Reply::Ack, 0),
            position: None,
        }
    }

    /// An exchange that starts at `stage`.
    pub open spec fn starting(stage: Stage) -> ExchangeState {
        ExchangeState {
            stage,
            command: Seq::empty(),
            wait: WaitState::begin(Reply::Ack, 0),
            position: None,
        }
    }

    /// The text of `command` for this exchange.
    pub open spec fn command_text(self, command: Command) -> Seq<char> {
        match command {
            Command::Identity => identity_query(),
            Command::Position => position_query(),
            Command::Relative => relative_mode(),
            Command::Move => self.command,
            Command::Absolute => absolute_mode(),
            Command::Homing => homing(),
        }
    }

    /// The exchange is polling for a reply.
    pub open spec fn is_waiting(self) -> bool {
        match self.stage {
            Stage::JogRelativeWait | Stage::JogMoveWait | Stage::JogAbsoluteWait
            | Stage::RecoverWait(_) | Stage::HomeWait | Stage::IdentityWait
            | Stage::PositionWait => true,
            _ => false,
        }
    }

    /// The exchange is waiting for the result of a write.
    pub open spec fn is_writing(self) -> bool {
        match self.stage {
            Stage::JogRelativeSent | Stage::JogMoveSent | Stage::JogAbsoluteSent
            | Stage::RecoverSent(_) | Stage::HomeSent | Stage::IdentitySent
            | Stage::PositionSent => true,
            _ => false,
        }
    }

    /// The exchange has not asked for anything yet.
    pub open spec fn is_start(self) -> bool {
        match self.stage {
            Stage::JogStart | Stage::HomeStart | Stage::ConnectStart => true,
            _ => false,
        }
    }

    /// The action the exchange asked for last.
    pub open spec fn pending(self) -> Action {
        match self.stage {
            Stage::JogRelativeSent => Action::Write(Command::Relative),
            Stage::JogMoveSent => Action::Write(Command::Move),
            Stage::JogAbsoluteSent | Stage::RecoverSent(_) => Action::Write(Command::Absolute),
            Stage::HomeSent => Action::Write(Command::Homing),
            Stage::IdentitySent => Action::Write(Command::Identity),
            Stage::PositionSent => Action::Write(Command::Position),
            Stage::JogRelativeWait | Stage::JogMoveWait | Stage::JogAbsoluteWait
            | Stage::RecoverWait(_) | Stage::HomeWait | Stage::IdentityWait
            | Stage::PositionWait => self.wait.pending(),
            Stage::Closing(_) => Action::Close,
            Stage::Finished(result) => Action::Finish(result),
            _ => Action::Flush,
        }
    }

    /// `event` answers the pending action (any event starts an exchange).
    pub open spec fn expects(self, event: Event) -> bool {
        if self.is_start() || self.stage is Finished {
            true
        } else if self.is_waiting() {
            self.wait.expects(event)
        } else if self.is_writing() {
            event is Written
        } else {
            event is Ready
        }
    }

    /// A clock reading is not earlier than the start of the current wait.
    pub open spec fn accepts(self, event: Event) -> bool {
        self.is_waiting() ==> self.wait.accepts(event)
    }

    /// The state at `stage`.
    pub open spec fn at(self, stage: Stage) -> ExchangeState {
        ExchangeState { stage, ..self }
    }

    /// Ends the exchange with `result`.
    pub open spec fn finish(self, desync: bool, result: Result<Done, Failure>) -> (
        ExchangeState,
        bool,
        Action,
    ) {
        (self.at(Stage::Finished(result)), desync, Action::Finish(result))
    }

    /// Writes `command`, moving to `stage`.
    pub open spec fn send(self, desync: bool, stage: Stage, command: Command) -> (
        ExchangeState,
        bool,
        Action,
    ) {
        (self.at(stage), desync, Action::Write(command))
    }

    /// Starts a wait for `reply` with a timeout of `timeout_secs` seconds.
    pub open spec fn await_reply(
        self,
        desync: bool,
        stage: Stage,
        reply: Reply,
        timeout_secs: u64,
    ) -> (ExchangeState, bool, Action) {
        (
            ExchangeState { stage, wait: WaitState::begin(reply, timeout_secs), ..self },
            desync,
            Action::ReadClock,
        )
    }

    /// A jog failed with `cause` after its first write: the state becomes
    /// desynchronized and a best-effort `G90` is written.
    pub open spec fn recover(self, cause: Failure) -> (ExchangeState, bool, Action) {
        (self.at(Stage::RecoverSent(cause)), true, Action::Write(Command::Absolute))
    }

    /// Closes the transport, then goes on with `then`.
    pub open spec fn close_then(self, desync: bool, then: Then) -> (ExchangeState, bool, Action) {
        (self.at(Stage::Closing(then)), desync, Action::Close)
    }

    /// The step after a flush or a close is done, or at the start.
    pub open spec fn after_ready(self, desync: bool) -> (ExchangeState, bool, Action) {
        match self.stage {
            Stage::JogStart => (self.at(Stage::JogFlushing), desync, Action::Flush),
            Stage::JogFlushing => self.send(desync, Stage::JogRelativeSent, Command::Relative),
            Stage::HomeStart => (self.at(Stage::HomeFlushing), desync, Action::Flush),
            Stage::HomeFlushing => self.send(desync, Stage::HomeSent, Command::Homing),
            Stage::ConnectStart => (self.at(Stage::IdentityFlushing), desync, Action::Flush),
            Stage::IdentityFlushing => self.send(desync, Stage::IdentitySent, Command::Identity),
            Stage::PositionFlushing => self.send(desync, Stage::PositionSent, Command::Position),
            Stage::Closing(Then::Recover(cause)) => self.recover(cause),
            Stage::Closing(Then::Finish(result)) => self.finish(desync, result),
            _ => (self, desync, self.pending()),
        }
    }

    /// The step after a write, which succeeded when `ok`.
    pub open spec fn after_write(self, desync: bool, ok: bool) -> (ExchangeState, bool, Action) {
        match self.stage {
            Stage::JogRelativeSent => if ok {
                self.await_reply(desync, Stage::JogRelativeWait, Reply::Ack, 2)
            } else {
                self.recover(Failure::WriteFailed)
            },
            Stage::JogMoveSent => if ok {
                self.await_reply(desync, Stage::JogMoveWait, Reply::Ack, 5)
            } else {
                self.recover(Failure::WriteFailed)
            },
            Stage::JogAbsoluteSent => if ok {
                self.await_reply(desync, Stage::JogAbsoluteWait, Reply::Ack, 2)
            } else {
                self.recover(Failure::WriteFailed)
            },
            Stage::RecoverSent(cause) => self.await_reply(
                desync,
                Stage::RecoverWait(cause),
                Reply::Ack,
                2,
            ),
            Stage::HomeSent => if ok {
                self.await_reply(desync, Stage::HomeWait, Reply::Ack, 10)
            } else {
                self.finish(desync, Err(Failure::WriteFailed))
            },
            Stage::IdentitySent => if ok {
                self.await_reply(desync, Stage::IdentityWait, Reply::Identity, 2)
            } else {
                self.close_then(desync, Then::Finish(Err(Failure::WriteFailed)))
            },
            Stage::PositionSent => if ok {
                self.await_reply(desync, Stage::PositionWait, Reply::Position, 2)
            } else {
                self.finish(true, Ok(Done::Connected { synced: false }))
            },
            _ => (self, desync, self.pending()),
        }
    }

    /// The step after a jog wait for an acknowledgement ended with
    /// `outcome`: `matched` on success; a lost link closes the transport
    /// and desynchronizes before the recovery.
    pub open spec fn after_jog_wait(
        self,
        outcome: WaitOutcome,
        matched: (ExchangeState, bool, Action),
    ) -> (ExchangeState, bool, Action) {
        match outcome {
            WaitOutcome::Matched => matched,
            WaitOutcome::LinkLost => self.close_then(true, Then::Recover(Failure::LinkLost)),
            _ => self.recover(Failure::Timeout),
        }
    }

    /// The step after a wait ended with `outcome` (not pending).
    pub open spec fn after_wait(self, desync: bool, outcome: WaitOutcome) -> (
        ExchangeState,
        bool,
        Action,
    ) {
        match self.stage {
            Stage::JogRelativeWait => self.after_jog_wait(
                outcome,
                self.send(desync, Stage::JogMoveSent, Command::Move),
            ),
            Stage::JogMoveWait => self.after_jog_wait(
                outcome,
                self.send(desync, Stage::JogAbsoluteSent, Command::Absolute),
            ),
            Stage::JogAbsoluteWait => self.after_jog_wait(
                outcome,
                self.finish(desync, Ok(Done::Moved)),
            ),
            Stage::RecoverWait(cause) => match outcome {
                WaitOutcome::LinkLost => self.close_then(true, Then::Finish(Err(cause))),
                _ => self.finish(desync, Err(cause)),
            },
            Stage::HomeWait => match outcome {
                WaitOutcome::Matched => self.finish(false, Ok(Done::Homed)),
                WaitOutcome::LinkLost => self.close_then(
                    true,
                    Then::Finish(Err(Failure::LinkLost)),
                ),
                _ => self.finish(true, Err(Failure::Timeout)),
            },
            Stage::IdentityWait => match outcome {
                WaitOutcome::Matched => (self.at(Stage::PositionFlushing), desync, Action::Flush),
                WaitOutcome::LinkLost => self.close_then(
                    desync,
                    Then::Finish(Err(Failure::LinkLost)),
                ),
                _ => self.close_then(desync, Then::Finish(Err(Failure::Timeout))),
            },
            Stage::PositionWait => match outcome {
                WaitOutcome::Matched => ExchangeState {
                    position: position_report(complete_part(self.wait.buffer)),
                    ..self
                }.finish(false, Ok(Done::Connected { synced: true })),
                WaitOutcome::LinkLost => self.close_then(
                    true,
                    Then::Finish(Ok(Done::Connected { synced: false })),
                ),
                _ => self.finish(true, Ok(Done::Connected { synced: false })),
            },
            _ => (self, desync, self.pending()),
        }
    }

    /// One step of the exchange: the new state, the new desynchronized
    /// flag and the next action, given the flag `desync` and the `event`
    /// that answers the last action. An event that does not answer it
    /// changes nothing and the action is asked for again.
    pub open spec fn step(self, desync: bool, event: Event) -> (ExchangeState, bool, Action) {
        if !self.expects(event) || self.stage is Finished {
            (self, desync, self.pending())
        } else if self.is_waiting() {
            let (wait, outcome) = self.wait.on(event);
            let next = ExchangeState { wait, ..self };
            match outcome {
                WaitOutcome::Pending(action) => (next, desync, action),
                _ => next.after_wait(desync, outcome),
            }
        } else if self.is_writing() {
            match event {
                Event::Written(ok) => self.after_write(desync, ok),
                _ => (self, desync, self.pending()),
            }
        } else {
            self.after_ready(desync)
        }
    }
}

proof fn lemma_after_wait_keeps_wait(x: ExchangeState, desync: bool, outcome: WaitOutcome)
    ensures
        x.after_wait(desync, outcome).0.wait == x.wait,
{
}

/// One robot operation exchanged with the firmware: a jog, a homing or a
/// connection.
pub struct Exchange {
    stage: Stage,
    command: String,
    wait: Wait,
    position: Option<PositionText>,
}

/// The view of an optional position report.
pub open spec fn position_view(p: Option<PositionText>) -> Option<(Seq<char>, Seq<char>, Seq<char>)> {
    match p {
        Some(p) => Some(p@),
        None => None,
    }
}

impl View for Exchange {
    type V = ExchangeState;

    closed spec fn view(&self) -> ExchangeState {
        ExchangeState {
            stage: self.stage,
            command: self.command@,
            wait: self.wait@,
            position: position_view(self.position),
        }
    }
}

impl Exchange {
    /// A jog of `axis` by `displacement` (in mm, written as decimal text).
    /// `desynchronized` is the robot's state and `within_limits` tells
    /// whether the move stays within the software limits: either refusal
    /// ends the exchange before any I/O.
    pub fn jog(desynchronized: bool, within_limits: bool, axis: Axis, displacement: &str) -> (x:
        Exchange)
        ensures
            x@ == ExchangeState::jog(
                desynchronized,
                within_limits,
                move_command(axis, displacement@),
            ),
    {
        let stage = if desynchronized {
            Stage::Finished(Err(Failure::Desynchronized))
        } else if !within_limits {
            Stage::Finished(Err(Failure::OutOfLimits))
        } else {
            Stage::JogStart
        };
        Exchange {
            stage,
            command: create_mv_command(axis, displacement),
            wait: Wait::begin(Reply::Ack, 0),
            position: None,
        }
    }

    /// A homing of the X, Y and Z axes (`G28`).
    pub fn home() -> (x: Exchange)
        ensures
            x@ == ExchangeState::starting(Stage::HomeStart),
    {
        Exchange {
            stage: Stage::HomeStart,
            command: String::new(),
            wait: Wait::begin(Reply::Ack, 0),
            position: None,
        }
    }

    /// The connection to a robot on a transport just opened: the identity
    /// handshake, then the read-back of the position.
    pub fn connect() -> (x: Exchange)
        ensures
            x@ == ExchangeState::starting(Stage::ConnectStart),
    {
        Exchange {
            stage: Stage::ConnectStart,
            command: String::new(),
            wait: Wait::begin(Reply::Ack, 0),
            position: None,
        }
    }

    /// The bytes to write for `command`.
    pub fn bytes_of(&self, command: Command) -> (b: Vec<u8>)
        ensures
            b@ == wire(self@.command_text(command)),
    {
        match command {
            Command::Identity => identity_query_bytes(),
            Command::Position => position_query_bytes(),
            Command::Relative => relative_mode_bytes(),
            Command::Move => self.command.as_str().as_bytes_vec(),
            Command::Absolute => absolute_mode_bytes(),
            Command::Homing => homing_bytes(),
        }
    }

    /// The position report the connection read, if it read one.
    pub fn position(&self) -> (p: Option<PositionText>)
        ensures
            position_view(p) == self@.position,
    {
        match &self.position {
            Some(p) => Some(PositionText { x: p.x.clone(), y: p.y.clone(), z: p.z.clone() }),
            None => None,
        }
    }

    fn is_waiting(&self) -> (r: bool)
        ensures
            r == self@.is_waiting(),
    {
        match self.stage {
            Stage::JogRelativeWait | Stage::JogMoveWait | Stage::JogAbsoluteWait
            | Stage::RecoverWait(_) | Stage::HomeWait | Stage::IdentityWait
            | Stage::PositionWait => true,
            _ => false,
        }
    }

    fn is_writing(&self) -> (r: bool)
        ensures
            r == self@.is_writing(),
    {
        match self.stage {
            Stage::JogRelativeSent | Stage::JogMoveSent | Stage::JogAbsoluteSent
            | Stage::RecoverSent(_) | Stage::HomeSent | Stage::IdentitySent
            | Stage::PositionSent => true,
            _ => false,
        }
    }

    fn is_start(&self) -> (r: bool)
        ensures
            r == self@.is_start(),
    {
        match self.stage {
            Stage::JogStart | Stage::HomeStart | Stage::ConnectStart => true,
            _ => false,
        }
    }

    /// The action asked for last.
    pub fn pending(&self) -> (a: Action)
        ensures
            a == self@.pending(),
    {
        match self.stage {
            Stage::JogRelativeSent => Action::Write(Command::Relative),
            Stage::JogMoveSent => Action::Write(Command::Move),
            Stage::JogAbsoluteSent | Stage::RecoverSent(_) => Action::Write(Command::Absolute),
            Stage::HomeSent => Action::Write(Command::Homing),
            Stage::IdentitySent => Action::Write(Command::Identity),
            Stage::PositionSent => Action::Write(Command::Position),
            Stage::JogRelativeWait | Stage::JogMoveWait | Stage::JogAbsoluteWait
            | Stage::RecoverWait(_) | Stage::HomeWait | Stage::IdentityWait
            | Stage::PositionWait => self.wait.pending(),
            Stage::Closing(_) => Action::Close,
            Stage::Finished(result) => Action::Finish(result),
            _ => Action::Flush,
        }
    }

    fn expects(&self, event: &Event) -> (r: bool)
        ensures
            r == self@.expects(*event),
    {
        if self.is_start() || matches!(self.stage, Stage::Finished(_)) {
            true
        } else if self.is_waiting() {
            self.wait.expects(event)
        } else if self.is_writing() {
            matches!(event, Event::Written(_))
        } else {
            matches!(event, Event::Ready)
        }
    }

    /// Whether `event` may be handed to [`Self::advance`]: a clock reading
    /// must not be earlier than the start of the current wait.
    pub fn accepts(&self, event: &Event) -> (r: bool)
        ensures
            r == self@.accepts(*event),
    {
        !self.is_waiting() || self.wait.accepts(event)
    }

    fn finish(&mut self, desync: &mut bool, flag: bool, result: Result<Done, Failure>) -> (a:
        Action)
        ensures
            (final(self)@, *final(desync), a) == old(self)@.finish(flag, result),
    {
        self.stage = Stage::Finished(result);
        *desync = flag;
        Action::Finish(result)
    }

    fn send(&mut self, stage: Stage, command: Command) -> (a: Action)
        ensures
            (final(self)@, a) == ({
                let (s, _, a) = old(self)@.send(false, stage, command);
                (s, a)
            }),
    {
        self.stage = stage;
        Action::Write(command)
    }

    fn await_reply(&mut self, stage: Stage, reply: Reply, timeout_secs: u64) -> (a: Action)
        ensures
            (final(self)@, a) == ({
                let (s, _, a) = old(self)@.await_reply(false, stage, reply, timeout_secs);
                (s, a)
            }),
    {
        self.stage = stage;
        self.wait = Wait::begin(reply, timeout_secs);
        Action::ReadClock
    }

    fn recover(&mut self, desync: &mut bool, cause: Failure) -> (a: Action)
        ensures
            (final(self)@, *final(desync), a) == old(self)@.recover(cause),
    {
        self.stage = Stage::RecoverSent(cause);
        *desync = true;
        Action::Write(Command::Absolute)
    }

    fn close_then(&mut self, desync: &mut bool, flag: bool, then: Then) -> (a: Action)
        ensures
            (final(self)@, *final(desync), a) == old(self)@.close_then(flag, then),
    {
        self.stage = Stage::Closing(then);
        *desync = flag;
        Action::Close
    }

    fn after_ready(&mut self, desync: &mut bool) -> (a: Action)
        ensures
            (final(self)@, *final(desync), a) == old(self)@.after_ready(*old(desync)),
    {
        match self.stage {
            Stage::JogStart => {
                self.stage = Stage::JogFlushing;
                Action::Flush
            },
            Stage::JogFlushing => self.send(Stage::JogRelativeSent, Command::Relative),
            Stage::HomeStart => {
                self.stage = Stage::HomeFlushing;
                Action::Flush
            },
            Stage::HomeFlushing => self.send(Stage::HomeSent, Command::Homing),
            Stage::ConnectStart => {
                self.stage = Stage::IdentityFlushing;
                Action::Flush
            },
            Stage::IdentityFlushing => self.send(Stage::IdentitySent, Command::Identity),
            Stage::PositionFlushing => self.send(Stage::PositionSent, Command::Position),
            Stage::Closing(Then::Recover(cause)) => self.recover(desync, cause),
            Stage::Closing(Then::Finish(result)) => {
                let flag = *desync;
                self.finish(desync, flag, result)
            },
            _ => self.pending(),
        }
    }

    fn after_write(&mut self, desync: &mut bool, ok: bool) -> (a: Action)
        ensures
            (final(self)@, *final(desync), a) == old(self)@.after_write(*old(desync), ok),
    {
        match self.stage {
            Stage::JogRelativeSent => if ok {
                self.await_reply(Stage::JogRelativeWait, Reply::Ack, 2)
            } else {
                self.recover(desync, Failure::WriteFailed)
            },
            Stage::JogMoveSent => if ok {
                self.await_reply(Stage::JogMoveWait, Reply::Ack, 5)
            } else {
                self.recover(desync, Failure::WriteFailed)
            },
            Stage::JogAbsoluteSent => if ok {
                self.await_reply(Stage::JogAbsoluteWait, Reply::Ack, 2)
            } else {
                self.recover(desync, Failure::WriteFailed)
            },
            Stage::RecoverSent(cause) => self.await_reply(Stage::RecoverWait(cause), Reply::Ack, 2),
            Stage::HomeSent => if ok {
                self.await_reply(Stage::HomeWait, Reply::Ack, 10)
            } else {
                let flag = *desync;
                self.finish(desync, flag, Err(Failure::WriteFailed))
            },
            Stage::IdentitySent => if ok {
                self.await_reply(Stage::IdentityWait, Reply::Identity, 2)
            } else {
                let flag = *desync;
                self.close_then(desync, flag, Then::Finish(Err(Failure::WriteFailed)))
            },
            Stage::PositionSent => if ok {
                self.await_reply(Stage::PositionWait, Reply::Position, 2)
            } else {
                self.finish(desync, true, Ok(Done::Connected { synced: false }))
            },
            _ => self.pending(),
        }
    }

    fn after_jog_wait(&mut self, desync: &mut bool, outcome: WaitOutcome) -> (a: Action)
        requires
            old(self)@.stage == Stage::JogRelativeWait || old(self)@.stage == Stage::JogMoveWait
                || old(self)@.stage == Stage::JogAbsoluteWait,
            !(outcome is Pending),
        ensures
            (final(self)@, *final(desync), a) == old(self)@.after_wait(*old(desync), outcome),
    {
        match outcome {
            WaitOutcome::Matched => match self.stage {
                Stage::JogRelativeWait => self.send(Stage::JogMoveSent, Command::Move),
                Stage::JogMoveWait => self.send(Stage::JogAbsoluteSent, Command::Absolute),
                _ => {
                    let flag = *desync;
                    self.finish(desync, flag, Ok(Done::Moved))
                },
            },
            WaitOutcome::LinkLost => self.close_then(
                desync,
                true,
                Then::Recover(Failure::LinkLost),
            ),
            _ => self.recover(desync, Failure::Timeout),
        }
    }

    fn after_wait(&mut self, desync: &mut bool, outcome: WaitOutcome) -> (a: Action)
        requires
            old(self)@.is_waiting(),
            !(outcome is Pending),
        ensures
            (final(self)@, *final(desync), a) == old(self)@.after_wait(*old(desync), outcome),
    {
        match self.stage {
            Stage::JogRelativeWait | Stage::JogMoveWait | Stage::JogAbsoluteWait => {
                self.after_jog_wait(desync, outcome)
            },
            Stage::RecoverWait(cause) => match outcome {
                WaitOutcome::LinkLost => self.close_then(desync, true, Then::Finish(Err(cause))),
                _ => {
                    let flag = *desync;
                    self.finish(desync, flag, Err(cause))
                },
            },
            Stage::HomeWait => match outcome {
                WaitOutcome::Matched => self.finish(desync, false, Ok(Done::Homed)),
                WaitOutcome::LinkLost => self.close_then(
                    desync,
                    true,
                    Then::Finish(Err(Failure::LinkLost)),
                ),
                _ => self.finish(desync, true, Err(Failure::Timeout)),
            },
            Stage::IdentityWait => match outcome {
                WaitOutcome::Matched => {
                    self.stage = Stage::PositionFlushing;
                    Action::Flush
                },
                WaitOutcome::LinkLost => {
                    let flag = *desync;
                    self.close_then(desync, flag, Then::Finish(Err(Failure::LinkLost)))
                },
                _ => {
                    let flag = *desync;
                    self.close_then(desync, flag, Then::Finish(Err(Failure::Timeout)))
                },
            },
            _ => match outcome {
                WaitOutcome::Matched => {
                    let complete = complete_lines(self.wait.buffer.as_slice());
                    self.position = position_in(complete.as_slice());
                    self.finish(desync, false, Ok(Done::Connected { synced: true }))
                },
                WaitOutcome::LinkLost => self.close_then(
                    desync,
                    true,
                    Then::Finish(Ok(Done::Connected { synced: false })),
                ),
                _ => self.finish(desync, true, Ok(Done::Connected { synced: false })),
            },
        }
    }

    /// Decides the next action of the exchange from the `event` that answers
    /// the last one, keeping the robot's `desynchronized` flag. An event
    /// that does not answer the last action changes nothing and gets the
    /// same action back.
    pub fn advance(&mut self, desynchronized: &mut bool, event: Event) -> (action: Action)
        requires
            old(self)@.accepts(event),
        ensures
            (final(self)@, *final(desynchronized), action) == old(self)@.step(
                *old(desynchronized),
                event,
            ),
            old(self)@.is_waiting() && old(self)@.expects(event) && utf8_chunk(event) is Some
                ==> final(self)@.wait.buffer == old(self)@.wait.buffer + vstd::utf8::decode_utf8(
                utf8_chunk(event)->0,
            ),
    {
        if !self.expects(&event) || matches!(self.stage, Stage::Finished(_)) {
            return self.pending();
        }
        if self.is_waiting() {
            let outcome = self.wait.on(event);
            proof {
                lemma_after_wait_keeps_wait(self@, *desynchronized, outcome);
            }
            match outcome {
                WaitOutcome::Pending(action) => action,
                _ => self.after_wait(desynchronized, outcome),
            }
        } else if self.is_writing() {
            match event {
                Event::Written(ok) => self.after_write(desynchronized, ok),
                _ => self.pending(),
            }
        } else {
            self.after_ready(desynchronized)
        }
    }
}

} // verus!
