//! The supervisor of one spawned child.
//!
//! It is told what the outside world reports of the child: the outcome of
//! each read of its two output pipes, and the outcome of waiting for its
//! exit. It answers with the events to send, in order. The event that
//! reports the exit is kept back until both pipes are drained, so that it is
//! the last event of the spawn.

use vstd::prelude::*;
use crate::event::{CommandEvent, EventView, Stream, TerminatedPayload};
use crate::guard::CompletionGuard;
use crate::reader::{
    after_failure, after_read, failure_events, read_events, PipeReader, ReaderState, ReaderView,
};

verus! {

/// One report of the outside world about the child.
pub enum Observation {
    /// A read of the stream's pipe succeeded with these bytes; none at all
    /// is the end of the stream.
    Read(Stream, Seq<u8>),
    /// A read of the stream's pipe failed with this message.
    ReadFailed(Stream, Seq<char>),
    /// The wait returned: the child has exited.
    Exited(TerminatedPayload),
    /// The wait itself failed with this message.
    WaitFailed(Seq<char>),
}

/// A [`Supervisor`] as plain mathematical values.
pub struct SupervisorView {
    pub stdout: ReaderView,
    pub stderr: ReaderView,
    /// The shared holds on the completion guard: one for each reader that
    /// still runs.
    pub holds: nat,
    /// The terminal event, from the moment the wait has returned until the
    /// event is sent.
    pub outcome: Option<EventView>,
    /// Whether the terminal event has been sent.
    pub finished: bool,
}

impl SupervisorView {
    /// The reader of `stream`.
    pub open spec fn reader(self, stream: Stream) -> ReaderView {
        match stream {
            Stream::Stdout => self.stdout,
            Stream::Stderr => self.stderr,
        }
    }

    /// This state with `reader` in the place of the reader of `stream`, and
    /// with the shared hold of a reader that stopped given back.
    pub open spec fn with_reader(self, stream: Stream, reader: ReaderView) -> SupervisorView {
        let holds = released(self.holds, self.reader(stream), reader);
        match stream {
            Stream::Stdout => SupervisorView { stdout: reader, holds, ..self },
            Stream::Stderr => SupervisorView { stderr: reader, holds, ..self },
        }
    }

    /// This state once the wait has returned with `event` to report. Only the
    /// first return of the wait counts.
    pub open spec fn with_outcome(self, event: EventView) -> SupervisorView {
        if self.outcome.is_none() {
            SupervisorView { outcome: Some(event), ..self }
        } else {
            self
        }
    }
}

/// The shared holds left when a reader goes from `before` to `after`.
pub open spec fn released(holds: nat, before: ReaderView, after: ReaderView) -> nat {
    if before.state == ReaderState::Open && after.state != ReaderState::Open && holds > 0 {
        (holds - 1) as nat
    } else {
        holds
    }
}

/// The state right after the spawn: both pipes open, nothing pending, each
/// reader with its shared hold.
pub open spec fn initial() -> SupervisorView {
    SupervisorView {
        stdout: ReaderView {
            stream: Stream::Stdout,
            pending: Seq::empty(),
            state: ReaderState::Open,
        },
        stderr: ReaderView {
            stream: Stream::Stderr,
            pending: Seq::empty(),
            state: ReaderState::Open,
        },
        holds: 2,
        outcome: None,
        finished: false,
    }
}

/// Sends the terminal event behind `events` if the wait has returned and the
/// guard is free.
pub open spec fn settle(m: SupervisorView, events: Seq<EventView>) -> (
    SupervisorView,
    Seq<EventView>,
) {
    if m.holds == 0 && m.outcome.is_some() {
        (SupervisorView { outcome: None, finished: true, ..m }, events.push(m.outcome.unwrap()))
    } else {
        (m, events)
    }
}

/// The state after one observation, and the events to send for it.
pub open spec fn step(m: SupervisorView, o: Observation) -> (SupervisorView, Seq<EventView>) {
    if m.finished {
        (m, Seq::empty())
    } else {
        match o {
            Observation::Read(stream, bytes) => settle(
                m.with_reader(stream, after_read(m.reader(stream), bytes)),
                read_events(m.reader(stream), bytes),
            ),
            Observation::ReadFailed(stream, message) => settle(
                m.with_reader(stream, after_failure(m.reader(stream))),
                failure_events(m.reader(stream), message),
            ),
            Observation::Exited(payload) => settle(
                m.with_outcome(EventView::Terminated(payload)),
                Seq::empty(),
            ),
            Observation::WaitFailed(message) => settle(
                m.with_outcome(EventView::Error(message)),
                Seq::empty(),
            ),
        }
    }
}

/// The view of an event that may not be there.
pub open spec fn outcome_view(outcome: Option<CommandEvent>) -> Option<EventView> {
    match outcome {
        Some(event) => Some(event@),
        None => None,
    }
}

/// Decides, observation by observation, which events a spawn sends.
#[derive(Debug)]
pub struct Supervisor {
    stdout: PipeReader,
    stderr: PipeReader,
    guard: CompletionGuard,
    outcome: Option<CommandEvent>,
    finished: bool,
}

impl View for Supervisor {
    type V = SupervisorView;

    closed spec fn view(&self) -> SupervisorView {
        SupervisorView {
            stdout: self.stdout@,
            stderr: self.stderr@,
            holds: self.guard@,
            outcome: outcome_view(self.outcome),
            finished: self.finished,
        }
    }
}

impl Supervisor {
    /// The supervisor of a child that has just been spawned.
    pub fn new() -> (supervisor: Supervisor)
        ensures
            supervisor@ == initial(),
    {
        Supervisor {
            stdout: PipeReader::new(Stream::Stdout),
            stderr: PipeReader::new(Stream::Stderr),
            guard: CompletionGuard::new(2),
            outcome: None,
            finished: false,
        }
    }

    /// Whether the terminal event has been sent: nothing follows it.
    pub fn is_finished(&self) -> (finished: bool)
        ensures
            finished == self@.finished,
    {
        self.finished
    }

    /// Whether the pipe of `stream` is to be read further.
    pub fn wants_read(&self, stream: Stream) -> (open: bool)
        ensures
            open <==> self@.reader(stream).state == ReaderState::Open,
    {
        match stream {
            Stream::Stdout => self.stdout.is_open(),
            Stream::Stderr => self.stderr.is_open(),
        }
    }

    /// Sends the terminal event behind `events` if the wait has returned and
    /// the guard is to be had in exclusive mode.
    fn settle(&mut self, events: &mut Vec<CommandEvent>)
        ensures
            (final(self)@, final(events).deep_view()) == settle(old(self)@, old(events).deep_view()),
    {
        if self.guard.try_exclusive() && self.outcome.is_some() {
            let ghost sent = events.deep_view();
            let event = self.outcome.take().unwrap();
            events.push(event);
            self.finished = true;
            assert(events.deep_view() == sent.push(event@));
        }
    }

    /// Reports a read of the pipe of `stream` that succeeded with `bytes`,
    /// and returns the events to send, in order. A read of no bytes is the
    /// end of the stream.
    pub fn on_read(&mut self, stream: Stream, bytes: &[u8]) -> (events: Vec<CommandEvent>)
        ensures
            (final(self)@, events.deep_view()) == step(
                old(self)@,
                Observation::Read(stream, bytes@),
            ),
    {
        if self.finished {
            return Vec::new();
        }
        let mut events = match stream {
            Stream::Stdout => {
                let was_open = self.stdout.is_open();
                let events = self.stdout.on_read(bytes);
                if was_open && !self.stdout.is_open() {
                    self.guard.release_shared();
                }
                events
            },
            Stream::Stderr => {
                let was_open = self.stderr.is_open();
                let events = self.stderr.on_read(bytes);
                if was_open && !self.stderr.is_open() {
                    self.guard.release_shared();
                }
                events
            },
        };
        self.settle(&mut events);
        events
    }

    /// Reports a read of the pipe of `stream` that failed with `message`,
    /// and returns the events to send, in order.
    pub fn on_read_error(&mut self, stream: Stream, message: String) -> (events: Vec<
        CommandEvent,
    >)
        ensures
            (final(self)@, events.deep_view()) == step(
                old(self)@,
                Observation::ReadFailed(stream, message@),
            ),
    {
        if self.finished {
            return Vec::new();
        }
        let mut events = match stream {
            Stream::Stdout => {
                let was_open = self.stdout.is_open();
                let events = self.stdout.on_error(message);
                if was_open && !self.stdout.is_open() {
                    self.guard.release_shared();
                }
                events
            },
            Stream::Stderr => {
                let was_open = self.stderr.is_open();
                let events = self.stderr.on_error(message);
                if was_open && !self.stderr.is_open() {
                    self.guard.release_shared();
                }
                events
            },
        };
        self.settle(&mut events);
        events
    }

    /// Reports that the wait has returned with the child's exit code and,
    /// where the platform has signals, the signal that ended it. Returns the
    /// events to send: the terminal event if both pipes are drained, else
    /// nothing yet.
    pub fn on_exit(&mut self, code: Option<i32>, signal: Option<i32>) -> (events: Vec<
        CommandEvent,
    >)
        ensures
            (final(self)@, events.deep_view()) == step(
                old(self)@,
                Observation::Exited(TerminatedPayload { code, signal }),
            ),
    {
        let mut events: Vec<CommandEvent> = Vec::new();
        if self.finished {
            return events;
        }
        if self.outcome.is_none() {
            self.outcome = Some(CommandEvent::Terminated(TerminatedPayload { code, signal }));
        }
        self.settle(&mut events);
        events
    }

    /// Reports that the wait itself failed with `message`. An error event
    /// then stands in for the terminal event, and is sent as that one would
    /// be.
    pub fn on_wait_error(&mut self, message: String) -> (events: Vec<CommandEvent>)
        ensures
            (final(self)@, events.deep_view()) == step(
                old(self)@,
                Observation::WaitFailed(message@),
            ),
    {
        let mut events: Vec<CommandEvent> = Vec::new();
        if self.finished {
            return events;
        }
        if self.outcome.is_none() {
            self.outcome = Some(CommandEvent::Error(message));
        }
        self.settle(&mut events);
        events
    }
}

} // verus!
