//! The decisions of a task that reads one pipe of the child.
//!
//! The task's owner performs the reads and reports each outcome here. In
//! return it learns which events to send, and whether to read on.

use vstd::prelude::*;
use crate::event::{tag, tagged, CommandEvent, EventView, Stream};
use crate::splitter::{
    complete_records, last_record, lemma_separator_free, lemma_split_push, pending, LineSplitter,
};

verus! {

/// How far the reading of one pipe has come.
#[derive(Debug, Clone, Copy, PartialEq, Eq, Structural)]
pub enum ReaderState {
    /// More bytes may follow.
    Open,
    /// A read returned no bytes: the stream has ended.
    Ended,
    /// A read failed; the pipe is read no further.
    Failed,
}

/// A [`PipeReader`] as plain mathematical values.
pub struct ReaderView {
    /// The stream whose events the reader sends.
    pub stream: Stream,
    /// The bytes read since the last separator.
    pub pending: Seq<u8>,
    pub state: ReaderState,
}

/// The events that carry `records` for `stream`, in order.
pub open spec fn tag_all(stream: Stream, records: Seq<Seq<u8>>) -> Seq<EventView> {
    Seq::new(records.len(), |i: int| tagged(stream, records[i]))
}

/// The reader after a read that succeeded with `bytes`. No bytes at all is
/// the end of the stream.
pub open spec fn after_read(r: ReaderView, bytes: Seq<u8>) -> ReaderView {
    if r.state != ReaderState::Open {
        r
    } else if bytes.len() == 0 {
        ReaderView { stream: r.stream, pending: Seq::empty(), state: ReaderState::Ended }
    } else {
        ReaderView { stream: r.stream, pending: pending(r.pending + bytes), state: r.state }
    }
}

/// The events that a read which succeeded with `bytes` gives rise to.
pub open spec fn read_events(r: ReaderView, bytes: Seq<u8>) -> Seq<EventView> {
    if r.state != ReaderState::Open {
        Seq::empty()
    } else if bytes.len() == 0 {
        tag_all(r.stream, last_record(r.pending))
    } else {
        tag_all(r.stream, complete_records(r.pending + bytes))
    }
}

/// The reader after a read that failed. A record that was still pending is
/// given up.
pub open spec fn after_failure(r: ReaderView) -> ReaderView {
    if r.state != ReaderState::Open {
        r
    } else {
        ReaderView { stream: r.stream, pending: Seq::empty(), state: ReaderState::Failed }
    }
}

/// The events that a read which failed with `message` gives rise to.
pub open spec fn failure_events(r: ReaderView, message: Seq<char>) -> Seq<EventView> {
    if r.state != ReaderState::Open {
        Seq::empty()
    } else {
        seq![EventView::Error(message)]
    }
}

/// Turns what the reads of one pipe return into events.
#[derive(Debug)]
pub struct PipeReader {
    stream: Stream,
    splitter: LineSplitter,
    state: ReaderState,
}

impl View for PipeReader {
    type V = ReaderView;

    closed spec fn view(&self) -> ReaderView {
        ReaderView { stream: self.stream, pending: self.splitter@, state: self.state }
    }
}

impl PipeReader {
    /// A reader at the start of `stream`.
    pub fn new(stream: Stream) -> (reader: PipeReader)
        ensures
            reader@ == (ReaderView { stream, pending: Seq::empty(), state: ReaderState::Open }),
    {
        PipeReader { stream, splitter: LineSplitter::new(), state: ReaderState::Open }
    }

    /// The stream whose events this reader sends.
    pub fn stream(&self) -> (stream: Stream)
        ensures
            stream == self@.stream,
    {
        self.stream
    }

    /// How far the reading has come.
    pub fn state(&self) -> (state: ReaderState)
        ensures
            state == self@.state,
    {
        self.state
    }

    /// Whether the pipe is to be read further.
    pub fn is_open(&self) -> (open: bool)
        ensures
            open <==> self@.state == ReaderState::Open,
    {
        match self.state {
            ReaderState::Open => true,
            _ => false,
        }
    }

    /// Reports a read that succeeded with `bytes`, and returns the events to
    /// send, in order: one for each record that the bytes complete, empty
    /// records included. A read of no bytes ends the stream; the bytes then
    /// pending, if any, are its last record. A reader that has stopped
    /// sends nothing.
    pub fn on_read(&mut self, bytes: &[u8]) -> (events: Vec<CommandEvent>)
        ensures
            final(self)@ == after_read(old(self)@, bytes@),
            events.deep_view() == read_events(old(self)@, bytes@),
    {
        let mut events: Vec<CommandEvent> = Vec::new();
        if !self.is_open() {
            return events;
        }
        if bytes.len() == 0 {
            match self.splitter.finish() {
                Some(record) => {
                    events.push(tag(self.stream, record));
                },
                None => {},
            }
            self.state = ReaderState::Ended;
            return events;
        }
        let ghost start = self.splitter@;
        let stream = self.stream;
        proof {
            use_type_invariant(&self.splitter);
            lemma_separator_free(start);
            assert(start + bytes@.take(0) == start);
        }
        let mut i: usize = 0;
        while i < bytes.len()
            invariant
                i <= bytes.len(),
                stream == self.stream,
                self.stream == old(self).stream,
                self.state == ReaderState::Open,
                events.deep_view() == tag_all(
                    stream,
                    complete_records(start + bytes@.take(i as int)),
                ),
                self.splitter@ == pending(start + bytes@.take(i as int)),
            decreases bytes.len() - i,
        {
            let b = bytes[i];
            proof {
                lemma_split_push(start + bytes@.take(i as int), b);
                assert(bytes@.take(i + 1) == bytes@.take(i as int).push(b));
                assert(start + bytes@.take(i + 1) == (start + bytes@.take(i as int)).push(b));
            }
            match self.splitter.feed(b) {
                Some(record) => {
                    let ghost sent = events.deep_view();
                    let ghost found = complete_records(start + bytes@.take(i as int));
                    let event = tag(stream, record);
                    events.push(event);
                    assert(events.deep_view() == sent.push(tagged(stream, record@)));
                    assert(tag_all(stream, found.push(record@)) == tag_all(stream, found).push(
                        tagged(stream, record@),
                    ));
                },
                None => {},
            }
            i += 1;
        }
        proof {
            assert(bytes@.take(bytes@.len() as int) == bytes@);
        }
        events
    }

    /// Reports a read that failed with `message`, and returns the one error
    /// event to send. The pipe is read no further. A reader that has stopped
    /// sends nothing.
    pub fn on_error(&mut self, message: String) -> (events: Vec<CommandEvent>)
        ensures
            final(self)@ == after_failure(old(self)@),
            events.deep_view() == failure_events(old(self)@, message@),
    {
        let mut events: Vec<CommandEvent> = Vec::new();
        if self.is_open() {
            let _ = self.splitter.finish();
            self.state = ReaderState::Failed;
            events.push(CommandEvent::Error(message));
        }
        events
    }
}

} // verus!
