//! What holds of every run of a supervisor.
//!
//! A run is the sequence of observations that a supervisor is told, from
//! the spawn on. The functions here speak of the state that a run leads to
//! and of the events that it sends, whatever the observations are and in
//! whatever order they come.

use vstd::prelude::*;
use crate::event::{lemma_payloads_append, payload, payloads, tagged, EventView, Stream};
use crate::reader::{
    after_failure, after_read, failure_events, read_events, tag_all, ReaderState,
};
use crate::splitter::{complete_records, last_record, lemma_split_append, pending, records};
use crate::status::{
    collected_output_is_lines, lines, output_of, status_is_code_of_terminated, status_of,
};
use crate::supervisor::{initial, settle, step, Observation, SupervisorView};

verus! {

/// The state that the observations `obs` lead to, and the events sent on
/// the way, in order.
pub open spec fn run(obs: Seq<Observation>) -> (SupervisorView, Seq<EventView>)
    decreases obs.len(),
{
    if obs.len() == 0 {
        (initial(), Seq::empty())
    } else {
        let (before, sent) = run(obs.drop_last());
        let (after, events) = step(before, obs.last());
        (after, sent + events)
    }
}

/// The number of readers that still run.
pub open spec fn open_readers(m: SupervisorView) -> nat {
    let out: nat = if m.stdout.state == ReaderState::Open {
        1
    } else {
        0
    };
    let err: nat = if m.stderr.state == ReaderState::Open {
        1
    } else {
        0
    };
    out + err
}

/// The event that reports what the wait returned first in `obs`, if it has
/// returned.
pub open spec fn wait_outcome(obs: Seq<Observation>) -> Option<EventView>
    decreases obs.len(),
{
    if obs.len() == 0 {
        None
    } else if wait_outcome(obs.drop_last()).is_some() {
        wait_outcome(obs.drop_last())
    } else {
        match obs.last() {
            Observation::Exited(payload) => Some(EventView::Terminated(payload)),
            Observation::WaitFailed(message) => Some(EventView::Error(message)),
            _ => None,
        }
    }
}

/// The bytes that the reads of `stream` in `obs` returned, in order, up to
/// the end of the stream or the first failed read.
pub open spec fn fed(obs: Seq<Observation>, stream: Stream) -> Seq<u8>
    decreases obs.len(),
{
    if obs.len() == 0 {
        Seq::empty()
    } else {
        let before = obs.drop_last();
        let open = run(before).0.reader(stream).state == ReaderState::Open;
        match obs.last() {
            Observation::Read(s, bytes) => if s == stream && open {
                fed(before, stream) + bytes
            } else {
                fed(before, stream)
            },
            _ => fed(before, stream),
        }
    }
}

/// What every state that a run leads to has in common with the events sent
/// up to it.
pub open spec fn coherent(m: SupervisorView, sent: Seq<EventView>) -> bool {
    &&& m.stdout.stream == Stream::Stdout
    &&& m.stderr.stream == Stream::Stderr
    &&& m.holds == open_readers(m)
    &&& m.outcome.is_some() ==> !m.finished && (m.outcome.unwrap() is Terminated
        || m.outcome.unwrap() is Error)
    &&& m.finished ==> m.holds == 0 && sent.len() > 0
    &&& forall|i: int|
        0 <= i < sent.len() && #[trigger] sent[i] is Terminated ==> m.finished && i == sent.len()
            - 1
}

proof fn lemma_step_coherent(m: SupervisorView, sent: Seq<EventView>, o: Observation)
    requires
        coherent(m, sent),
    ensures
        coherent(step(m, o).0, sent + step(m, o).1),
{
    let (after, events) = step(m, o);
    let all = sent + events;
    if m.finished {
        assert(all == sent);
    } else {
        let (mid, first) = match o {
            Observation::Read(stream, bytes) => (
                m.with_reader(stream, after_read(m.reader(stream), bytes)),
                read_events(m.reader(stream), bytes),
            ),
            Observation::ReadFailed(stream, message) => (
                m.with_reader(stream, after_failure(m.reader(stream))),
                failure_events(m.reader(stream), message),
            ),
            Observation::Exited(payload) => (
                m.with_outcome(EventView::Terminated(payload)),
                Seq::empty(),
            ),
            Observation::WaitFailed(message) => (
                m.with_outcome(EventView::Error(message)),
                Seq::empty(),
            ),
        };
        assert((after, events) == settle(mid, first));
        assert(forall|i: int| 0 <= i < first.len() ==> !(#[trigger] first[i] is Terminated));
        assert forall|i: int| 0 <= i < all.len() && #[trigger] all[i] is Terminated implies after.finished
            && i == all.len() - 1 by {
            if i < sent.len() {
                assert(all[i] == sent[i]);
            } else {
                assert(all[i] == events[i - sent.len()]);
                if i - sent.len() < first.len() {
                    assert(events[i - sent.len()] == first[i - sent.len()]);
                }
            }
        }
    }
}

/// Every run leads to a coherent state.
pub proof fn lemma_run_coherent(obs: Seq<Observation>)
    ensures
        coherent(run(obs).0, run(obs).1),
    decreases obs.len(),
{
    if obs.len() > 0 {
        lemma_run_coherent(obs.drop_last());
        lemma_step_coherent(run(obs.drop_last()).0, run(obs.drop_last()).1, obs.last());
    }
}

/// A run goes on from where its first part has led.
pub proof fn lemma_run_append(a: Seq<Observation>, b: Seq<Observation>)
    ensures
        b.len() > 0 ==> run(a + b) == ({
            let (before, sent) = run(a + b.drop_last());
            let (after, events) = step(before, b.last());
            (after, sent + events)
        }),
        b.len() == 0 ==> run(a + b) == run(a),
{
    if b.len() > 0 {
        assert((a + b).drop_last() == a + b.drop_last());
        assert((a + b).last() == b.last());
    } else {
        assert(a + b == a);
    }
}

/// The event that reports the child's termination is the last event of the
/// spawn: wherever a run has sent a `Terminated` event, that event is the
/// last one sent and the supervisor has finished. So at most one is sent.
pub proof fn terminated_is_last(obs: Seq<Observation>)
    ensures
        forall|i: int|
            0 <= i < run(obs).1.len() && #[trigger] run(obs).1[i] is Terminated ==> i == run(
                obs,
            ).1.len() - 1 && run(obs).0.finished,
{
    lemma_run_coherent(obs);
}

/// No event is sent after the terminal one: once a run has finished,
/// whatever is observed next changes neither the state nor the events.
pub proof fn nothing_follows_the_terminal_event(obs: Seq<Observation>, more: Seq<Observation>)
    requires
        run(obs).0.finished,
    ensures
        run(obs + more) == run(obs),
    decreases more.len(),
{
    lemma_run_append(obs, more);
    if more.len() > 0 {
        nothing_follows_the_terminal_event(obs, more.drop_last());
        assert(run(obs).1 + Seq::<EventView>::empty() == run(obs).1);
    }
}

/// The terminal event is sent exactly when the wait has returned and both
/// pipes are drained, and it reports what the wait returned first: the
/// child's termination, or the failure of the wait in its place. Until then
/// it is kept back.
pub proof fn terminal_event_waits_for_both_pipes(obs: Seq<Observation>)
    ensures
        run(obs).0.finished <==> wait_outcome(obs).is_some() && open_readers(run(obs).0) == 0,
        run(obs).0.finished ==> run(obs).1.len() > 0 && run(obs).1.last() == wait_outcome(
            obs,
        ).unwrap(),
        !run(obs).0.finished ==> run(obs).0.outcome == wait_outcome(obs),
    decreases obs.len(),
{
    lemma_run_coherent(obs);
    if obs.len() > 0 {
        let before = obs.drop_last();
        terminal_event_waits_for_both_pipes(before);
        lemma_run_coherent(before);
        let (m, sent) = run(before);
        let (after, events) = step(m, obs.last());
        if m.finished {
            assert(sent + events == sent);
        }
    }
}

/// The events that carry the records of a stream carry just these records
/// for it, and none for the other stream.
pub proof fn lemma_payloads_tag_all(tag: Stream, found: Seq<Seq<u8>>, stream: Stream)
    ensures
        payloads(tag_all(tag, found), stream) == if tag == stream {
            found
        } else {
            Seq::empty()
        },
    decreases found.len(),
{
    let events = tag_all(tag, found);
    if found.len() > 0 {
        assert(events.drop_last() == tag_all(tag, found.drop_last()));
        lemma_payloads_tag_all(tag, found.drop_last(), stream);
        assert(events.last() == tagged(tag, found.last()));
        if tag == stream {
            assert(found.drop_last() + seq![found.last()] == found);
        } else {
            assert(Seq::<Seq<u8>>::empty() + Seq::<Seq<u8>>::empty() == Seq::<Seq<u8>>::empty());
        }
    }
}

proof fn lemma_payloads_settle(m: SupervisorView, first: Seq<EventView>, stream: Stream)
    requires
        m.outcome.is_some() ==> m.outcome.unwrap() is Terminated || m.outcome.unwrap() is Error,
    ensures
        payloads(settle(m, first).1, stream) == payloads(first, stream),
{
    let events = settle(m, first).1;
    if m.holds == 0 && m.outcome.is_some() {
        assert(events.drop_last() == first);
        assert(payloads(first, stream) + Seq::<Seq<u8>>::empty() == payloads(first, stream));
    }
}

/// The events of a stream are its records. Whatever a run observes, and
/// however the reads cut the stream into chunks: while the stream is open,
/// the run has sent one event for each record that a separator has ended,
/// with that record less its separator, in the order of the stream, and
/// holds the bytes behind the last separator; once the stream has ended, the
/// events also carry those last bytes, if there are any; after a failed
/// read the events are those sent before it.
pub proof fn stream_events_are_its_records(obs: Seq<Observation>, stream: Stream)
    ensures
        ({
            let (m, sent) = run(obs);
            let reader = m.reader(stream);
            let bytes = fed(obs, stream);
            &&& reader.state == ReaderState::Open ==> payloads(sent, stream) == complete_records(
                bytes,
            ) && reader.pending == pending(bytes)
            &&& reader.state == ReaderState::Ended ==> payloads(sent, stream) == records(bytes)
            &&& reader.state == ReaderState::Failed ==> payloads(sent, stream)
                == complete_records(bytes)
        }),
    decreases obs.len(),
{
    if obs.len() == 0 {
        assert(complete_records(Seq::<u8>::empty()) == Seq::<Seq<u8>>::empty());
    } else {
        let before = obs.drop_last();
        stream_events_are_its_records(before, stream);
        lemma_run_coherent(before);
        let (m, sent) = run(before);
        let (after, events) = step(m, obs.last());
        let bytes = fed(before, stream);
        let reader = m.reader(stream);
        lemma_payloads_append(sent, events, stream);
        if m.finished {
            assert(payloads(sent, stream) + Seq::<Seq<u8>>::empty() == payloads(sent, stream));
        } else {
            match obs.last() {
                Observation::Read(s, chunk) => {
                    let mid = m.with_reader(s, after_read(m.reader(s), chunk));
                    let first = read_events(m.reader(s), chunk);
                    lemma_payloads_settle(mid, first, stream);
                    if m.reader(s).state != ReaderState::Open {
                        assert(payloads(sent, stream) + Seq::<Seq<u8>>::empty() == payloads(
                            sent,
                            stream,
                        ));
                    } else if chunk.len() == 0 {
                        lemma_payloads_tag_all(s, last_record(m.reader(s).pending), stream);
                        if s == stream {
                            assert(bytes + chunk == bytes);
                        } else {
                            assert(payloads(sent, stream) + Seq::<Seq<u8>>::empty() == payloads(
                                sent,
                                stream,
                            ));
                        }
                    } else {
                        lemma_payloads_tag_all(
                            s,
                            complete_records(m.reader(s).pending + chunk),
                            stream,
                        );
                        if s == stream {
                            lemma_split_append(bytes, chunk);
                        } else {
                            assert(payloads(sent, stream) + Seq::<Seq<u8>>::empty() == payloads(
                                sent,
                                stream,
                            ));
                        }
                    }
                },
                Observation::ReadFailed(s, message) => {
                    let mid = m.with_reader(s, after_failure(m.reader(s)));
                    let first = failure_events(m.reader(s), message);
                    lemma_payloads_settle(mid, first, stream);
                    if first.len() > 0 {
                        assert(first.drop_last() == Seq::<EventView>::empty());
                        assert(payloads(first.drop_last(), stream) + payload(first.last(), stream)
                            == Seq::<Seq<u8>>::empty());
                    }
                    assert(payloads(first, stream) == Seq::<Seq<u8>>::empty());
                    assert(payloads(sent, stream) + Seq::<Seq<u8>>::empty() == payloads(
                        sent,
                        stream,
                    ));
                },
                Observation::Exited(payload) => {
                    let mid = m.with_outcome(EventView::Terminated(payload));
                    lemma_payloads_settle(mid, Seq::empty(), stream);
                    assert(payloads(sent, stream) + Seq::<Seq<u8>>::empty() == payloads(
                        sent,
                        stream,
                    ));
                },
                Observation::WaitFailed(message) => {
                    let mid = m.with_outcome(EventView::Error(message));
                    lemma_payloads_settle(mid, Seq::empty(), stream);
                    assert(payloads(sent, stream) + Seq::<Seq<u8>>::empty() == payloads(
                        sent,
                        stream,
                    ));
                },
            }
        }
    }
}

/// What a finished run comes down to. Its status is the exit code that the
/// wait returned, and none where the wait failed. The collected output of a
/// stream that reached its end is all its records, each with one line feed
/// behind it, whatever separator ended it in the stream.
pub proof fn output_of_a_finished_run(obs: Seq<Observation>)
    requires
        run(obs).0.finished,
    ensures
        status_of(run(obs).1) == match wait_outcome(obs).unwrap() {
            EventView::Terminated(payload) => payload.code,
            _ => None,
        },
        run(obs).0.stdout.state == ReaderState::Ended ==> output_of(run(obs).1).stdout == lines(
            records(fed(obs, Stream::Stdout)),
        ),
        run(obs).0.stderr.state == ReaderState::Ended ==> output_of(run(obs).1).stderr == lines(
            records(fed(obs, Stream::Stderr)),
        ),
{
    let sent = run(obs).1;
    terminal_event_waits_for_both_pipes(obs);
    terminated_is_last(obs);
    status_is_code_of_terminated(sent);
    collected_output_is_lines(sent);
    stream_events_are_its_records(obs, Stream::Stdout);
    stream_events_are_its_records(obs, Stream::Stderr);
    lemma_run_coherent(obs);
    lemma_wait_outcome_kind(obs);
}

/// What the wait returned is reported as a termination or as an error.
proof fn lemma_wait_outcome_kind(obs: Seq<Observation>)
    ensures
        wait_outcome(obs).is_some() ==> wait_outcome(obs).unwrap() is Terminated || wait_outcome(
            obs,
        ).unwrap() is Error,
    decreases obs.len(),
{
    if obs.len() > 0 {
        lemma_wait_outcome_kind(obs.drop_last());
    }
}

} // verus!
