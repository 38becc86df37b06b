//! The events a running child produces, and their mathematical views.

use vstd::prelude::*;

verus! {

/// Which of the child's two output streams something belongs to.
#[derive(Debug, Clone, Copy, PartialEq, Eq, Structural)]
pub enum Stream {
    Stdout,
    Stderr,
}

/// Payload of [`CommandEvent::Terminated`].
#[derive(Debug, Clone, Copy, PartialEq, Eq, Structural)]
pub struct TerminatedPayload {
    /// Exit code of the process; absent when a signal ended it.
    pub code: Option<i32>,
    /// The signal that ended the process, where the platform has signals.
    pub signal: Option<i32>,
}

/// One unit of observable process activity.
#[derive(Debug, Clone, PartialEq, Eq)]
#[non_exhaustive]
pub enum CommandEvent {
    /// Stderr bytes up to, and without, the next `\n` or `\r`.
    Stderr(Vec<u8>),
    /// Stdout bytes up to, and without, the next `\n` or `\r`.
    Stdout(Vec<u8>),
    /// Reading a pipe or waiting for the child failed.
    Error(String),
    /// The child terminated.
    Terminated(TerminatedPayload),
}

/// What a [`CommandEvent`] holds, as plain mathematical values.
pub enum EventView {
    Stderr(Seq<u8>),
    Stdout(Seq<u8>),
    Error(Seq<char>),
    Terminated(TerminatedPayload),
}

impl View for CommandEvent {
    type V = EventView;

    open spec fn view(&self) -> EventView {
        match *self {
            CommandEvent::Stderr(bytes) => EventView::Stderr(bytes@),
            CommandEvent::Stdout(bytes) => EventView::Stdout(bytes@),
            CommandEvent::Error(message) => EventView::Error(message@),
            CommandEvent::Terminated(payload) => EventView::Terminated(payload),
        }
    }
}

impl DeepView for CommandEvent {
    type V = EventView;

    open spec fn deep_view(&self) -> EventView {
        self@
    }
}

/// The event that carries `record` for `stream`.
pub open spec fn tagged(stream: Stream, record: Seq<u8>) -> EventView {
    match stream {
        Stream::Stdout => EventView::Stdout(record),
        Stream::Stderr => EventView::Stderr(record),
    }
}

/// Wraps one record in the event of its stream.
pub fn tag(stream: Stream, record: Vec<u8>) -> (event: CommandEvent)
    ensures
        event@ == tagged(stream, record@),
{
    match stream {
        Stream::Stdout => CommandEvent::Stdout(record),
        Stream::Stderr => CommandEvent::Stderr(record),
    }
}

/// The record that `event` carries for `stream`, if it carries one.
pub open spec fn payload(event: EventView, stream: Stream) -> Seq<Seq<u8>> {
    match event {
        EventView::Stdout(record) => if stream == Stream::Stdout {
            seq![record]
        } else {
            Seq::empty()
        },
        EventView::Stderr(record) => if stream == Stream::Stderr {
            seq![record]
        } else {
            Seq::empty()
        },
        _ => Seq::empty(),
    }
}

/// The records that `events` carry for `stream`, in order.
pub open spec fn payloads(events: Seq<EventView>, stream: Stream) -> Seq<Seq<u8>>
    decreases events.len(),
{
    if events.len() == 0 {
        Seq::empty()
    } else {
        payloads(events.drop_last(), stream) + payload(events.last(), stream)
    }
}

/// The records that the events of a sequence carry are those of its first
/// part followed by those of its second.
pub proof fn lemma_payloads_append(a: Seq<EventView>, b: Seq<EventView>, stream: Stream)
    ensures
        payloads(a + b, stream) == payloads(a, stream) + payloads(b, stream),
    decreases b.len(),
{
    if b.len() == 0 {
        assert(a + b == a);
        assert(payloads(a, stream) + Seq::<Seq<u8>>::empty() == payloads(a, stream));
    } else {
        assert((a + b).drop_last() == a + b.drop_last());
        assert((a + b).last() == b.last());
        lemma_payloads_append(a, b.drop_last(), stream);
        assert(payloads(a, stream) + (payloads(b.drop_last(), stream) + payload(b.last(), stream))
            == (payloads(a, stream) + payloads(b.drop_last(), stream)) + payload(
            b.last(),
            stream,
        ));
    }
}

} // verus!
