//! Exit status and collected output: what an event stream comes down to.

use vstd::prelude::*;
use crate::event::{payload, payloads, CommandEvent, EventView, Stream, TerminatedPayload};
use crate::splitter::NEWLINE_BYTE;

verus! {

/// An [`Output`] as plain mathematical values.
pub struct OutputView {
    /// The exit code of the process, if it is known.
    pub code: Option<i32>,
    pub stdout: Seq<u8>,
    pub stderr: Seq<u8>,
}

/// What is known before any event has arrived: no code, no output.
pub open spec fn nothing_yet() -> OutputView {
    OutputView { code: None, stdout: Seq::empty(), stderr: Seq::empty() }
}

/// What is known after one more event. A record is taken down with a line
/// feed behind it, whatever separator ended it in the stream. A
/// `Terminated` event gives the code. An error event changes nothing.
pub open spec fn absorb(known: OutputView, event: EventView) -> OutputView {
    match event {
        EventView::Terminated(payload) => OutputView { code: payload.code, ..known },
        EventView::Stdout(record) => OutputView {
            stdout: known.stdout + record.push(NEWLINE_BYTE),
            ..known
        },
        EventView::Stderr(record) => OutputView {
            stderr: known.stderr + record.push(NEWLINE_BYTE),
            ..known
        },
        EventView::Error(_) => known,
    }
}

/// What a whole event stream comes down to.
pub open spec fn output_of(events: Seq<EventView>) -> OutputView
    decreases events.len(),
{
    if events.len() == 0 {
        nothing_yet()
    } else {
        absorb(output_of(events.drop_last()), events.last())
    }
}

/// The exit code that an event stream reports: that of its `Terminated`
/// event, and none if the stream closed without one.
pub open spec fn status_of(events: Seq<EventView>) -> Option<i32> {
    output_of(events).code
}

/// The bytes of `records` laid end to end, each record with a line feed
/// behind it.
pub open spec fn lines(records: Seq<Seq<u8>>) -> Seq<u8>
    decreases records.len(),
{
    if records.len() == 0 {
        Seq::empty()
    } else {
        lines(records.drop_last()) + records.last().push(NEWLINE_BYTE)
    }
}

/// The collected output of each stream is its records, in the order of
/// their events, each with one line feed behind it.
pub proof fn collected_output_is_lines(events: Seq<EventView>)
    ensures
        output_of(events).stdout == lines(payloads(events, Stream::Stdout)),
        output_of(events).stderr == lines(payloads(events, Stream::Stderr)),
    decreases events.len(),
{
    if events.len() > 0 {
        let before = events.drop_last();
        collected_output_is_lines(before);
        let out = payloads(before, Stream::Stdout);
        let err = payloads(before, Stream::Stderr);
        assert(out + Seq::<Seq<u8>>::empty() == out);
        assert(err + Seq::<Seq<u8>>::empty() == err);
        match events.last() {
            EventView::Stdout(record) => {
                assert((out + seq![record]).drop_last() == out);
            },
            EventView::Stderr(record) => {
                assert((err + seq![record]).drop_last() == err);
            },
            _ => {},
        }
    }
}

/// The status of a stream is the code of its last `Terminated` event. A
/// stream without such an event reports no code.
pub proof fn status_is_code_of_terminated(events: Seq<EventView>)
    ensures
        events.len() > 0 && events.last() is Terminated ==> status_of(events)
            == events.last()->Terminated_0.code,
        (forall|i: int| 0 <= i < events.len() ==> !(#[trigger] events[i] is Terminated))
            ==> status_of(events).is_none(),
    decreases events.len(),
{
    if events.len() > 0 {
        let before = events.drop_last();
        status_is_code_of_terminated(before);
        if forall|i: int| 0 <= i < events.len() ==> !(#[trigger] events[i] is Terminated) {
            assert forall|i: int| 0 <= i < before.len() implies !(#[trigger] before[i]
                is Terminated) by {
                assert(before[i] == events[i]);
            }
            assert(!(events[events.len() - 1] is Terminated));
        }
    }
}

/// A stream that ends with the report of a termination without a code, as
/// a signal brings it about, does not report success: its status is not
/// zero.
pub proof fn signal_exit_is_no_success(events: Seq<EventView>, payload: TerminatedPayload)
    requires
        events.len() > 0,
        events.last() == EventView::Terminated(payload),
        payload.code.is_none(),
    ensures
        status_of(events) != Some(0i32),
{
}

/// The result of a process after it has terminated.
#[derive(Debug)]
pub struct ExitStatus {
    code: Option<i32>,
}

impl View for ExitStatus {
    type V = Option<i32>;

    closed spec fn view(&self) -> Option<i32> {
        self.code
    }
}

impl ExitStatus {
    /// The status before any event has arrived: no code.
    pub fn new() -> (status: ExitStatus)
        ensures
            status@ == None::<i32>,
    {
        ExitStatus { code: None }
    }

    /// The exit code of the process, if it has one.
    pub fn code(&self) -> (code: Option<i32>)
        ensures
            code == self@,
    {
        self.code
    }

    /// Whether the process exited with code zero. A process that a signal
    /// ended, or whose code is unknown, did not succeed.
    pub fn success(&self) -> (ok: bool)
        ensures
            ok <==> self@ == Some(0i32),
    {
        match self.code {
            Some(c) => c == 0,
            None => false,
        }
    }

    /// Takes note of the next event of the stream. Only a `Terminated`
    /// event counts: it gives the code.
    pub fn observe(&mut self, event: &CommandEvent)
        ensures
            final(self)@ == match event@ {
                EventView::Terminated(payload) => payload.code,
                _ => old(self)@,
            },
    {
        match event {
            CommandEvent::Terminated(payload) => {
                self.code = payload.code;
            },
            _ => {},
        }
    }

    /// The status that a whole event stream reports.
    pub fn collect(events: &[CommandEvent]) -> (status: ExitStatus)
        ensures
            status@ == status_of(events.deep_view()),
    {
        let mut status = ExitStatus::new();
        let mut i: usize = 0;
        while i < events.len()
            invariant
                i <= events.len(),
                status@ == status_of(events.deep_view().take(i as int)),
            decreases events.len() - i,
        {
            proof {
                let seen = events.deep_view().take(i + 1);
                assert(seen.drop_last() == events.deep_view().take(i as int));
                assert(seen.last() == events[i as int]@);
            }
            status.observe(&events[i]);
            i += 1;
        }
        proof {
            assert(events.deep_view().take(events.len() as int) == events.deep_view());
        }
        status
    }
}

/// The output of a finished process.
#[derive(Debug)]
pub struct Output {
    /// The status of the process.
    pub status: ExitStatus,
    /// What the process wrote to stdout, record by record, each with a line
    /// feed behind it.
    pub stdout: Vec<u8>,
    /// What the process wrote to stderr, in the same form.
    pub stderr: Vec<u8>,
}

impl View for Output {
    type V = OutputView;

    open spec fn view(&self) -> OutputView {
        OutputView { code: self.status@, stdout: self.stdout@, stderr: self.stderr@ }
    }
}

impl Output {
    /// The output before any event has arrived.
    pub fn new() -> (output: Output)
        ensures
            output@ == nothing_yet(),
    {
        Output { status: ExitStatus::new(), stdout: Vec::new(), stderr: Vec::new() }
    }

    /// Takes note of the next event of the stream.
    pub fn observe(&mut self, event: &CommandEvent)
        ensures
            final(self)@ == absorb(old(self)@, event@),
    {
        match event {
            CommandEvent::Terminated(payload) => {
                self.status.code = payload.code;
            },
            CommandEvent::Stdout(record) => {
                self.stdout.extend_from_slice(record.as_slice());
                self.stdout.push(NEWLINE_BYTE);
                assert(self.stdout@ == old(self).stdout@ + record@.push(NEWLINE_BYTE));
            },
            CommandEvent::Stderr(record) => {
                self.stderr.extend_from_slice(record.as_slice());
                self.stderr.push(NEWLINE_BYTE);
                assert(self.stderr@ == old(self).stderr@ + record@.push(NEWLINE_BYTE));
            },
            CommandEvent::Error(_) => {},
        }
    }

    /// What a whole event stream comes down to: the code of its
    /// `Terminated` event, and the records of each stream, each with a line
    /// feed behind it. Error events leave no trace.
    pub fn collect(events: &[CommandEvent]) -> (output: Output)
        ensures
            output@ == output_of(events.deep_view()),
    {
        let mut output = Output::new();
        let mut i: usize = 0;
        while i < events.len()
            invariant
                i <= events.len(),
                output@ == output_of(events.deep_view().take(i as int)),
            decreases events.len() - i,
        {
            proof {
                let seen = events.deep_view().take(i + 1);
                assert(seen.drop_last() == events.deep_view().take(i as int));
                assert(seen.last() == events[i as int]@);
            }
            output.observe(&events[i]);
            i += 1;
        }
        proof {
            assert(events.deep_view().take(events.len() as int) == events.deep_view());
        }
        output
    }
}

} // verus!
