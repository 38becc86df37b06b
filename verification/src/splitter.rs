//! Splitting a raw byte stream into records.
//!
//! A record is a run of bytes between two separator bytes, `\n` or `\r`.
//! The separator itself belongs to no record. Bytes after the last
//! separator form a last record once the stream has ended, unless there are
//! none. Nothing here interprets an encoding.

use vstd::prelude::*;
use vstd::slice::slice_subrange;

verus! {

/// The line feed byte, `\n`.
pub const NEWLINE_BYTE: u8 = 0x0A;

/// The carriage return byte, `\r`.
pub const CARRIAGE_RETURN_BYTE: u8 = 0x0D;

/// Whether `b` ends a record.
pub open spec fn is_separator(b: u8) -> bool {
    b == NEWLINE_BYTE || b == CARRIAGE_RETURN_BYTE
}

/// The index of the first separator in `s`, or `s.len()` if it has none.
pub open spec fn record_end(s: Seq<u8>) -> int
    decreases s.len(),
{
    if s.len() == 0 || is_separator(s[0]) {
        0
    } else {
        1 + record_end(s.drop_first())
    }
}

/// The records of `s` that a separator has ended, in order.
pub open spec fn complete_records(s: Seq<u8>) -> Seq<Seq<u8>>
    decreases s.len(),
{
    let end = record_end(s);
    if 0 <= end < s.len() {
        seq![s.take(end)] + complete_records(s.skip(end + 1))
    } else {
        Seq::empty()
    }
}

/// The bytes of `s` after its last separator: a record still being read.
pub open spec fn pending(s: Seq<u8>) -> Seq<u8>
    decreases s.len(),
{
    let end = record_end(s);
    if 0 <= end < s.len() {
        pending(s.skip(end + 1))
    } else {
        s
    }
}

/// What the end of the stream makes of the bytes still pending: one last
/// record, or nothing if there are no such bytes.
pub open spec fn last_record(rest: Seq<u8>) -> Seq<Seq<u8>> {
    if rest.len() > 0 {
        seq![rest]
    } else {
        Seq::empty()
    }
}

/// All records of a stream that has ended after the bytes `s`.
pub open spec fn records(s: Seq<u8>) -> Seq<Seq<u8>> {
    complete_records(s) + last_record(pending(s))
}

/// No byte of `s` is a separator.
pub open spec fn separator_free(s: Seq<u8>) -> bool {
    forall|j: int| 0 <= j < s.len() ==> !is_separator(#[trigger] s[j])
}

/// The views of a vector of records.
pub open spec fn record_views(v: Seq<Vec<u8>>) -> Seq<Seq<u8>> {
    Seq::new(v.len(), |i: int| v[i]@)
}

/// `record_end` is the least index that holds a separator, or the length.
pub proof fn lemma_record_end(s: Seq<u8>)
    ensures
        0 <= record_end(s) <= s.len(),
        separator_free(s.take(record_end(s))),
        record_end(s) < s.len() ==> is_separator(s[record_end(s)]),
    decreases s.len(),
{
    if s.len() == 0 || is_separator(s[0]) {
    } else {
        let rest = s.drop_first();
        lemma_record_end(rest);
        let end = record_end(s);
        assert forall|j: int| 0 <= j < end implies !is_separator(#[trigger] s.take(end)[j]) by {
            if j > 0 {
                assert(rest.take(end - 1)[j - 1] == s[j]);
            }
        }
    }
}

/// An index that holds the first separator of `s`, or the length of a
/// separator-free `s`, is `record_end(s)`.
pub proof fn lemma_record_end_is(s: Seq<u8>, k: int)
    requires
        0 <= k <= s.len(),
        separator_free(s.take(k)),
        k < s.len() ==> is_separator(s[k]),
    ensures
        record_end(s) == k,
{
    lemma_record_end(s);
    let end = record_end(s);
    if end < k {
        assert(s.take(k)[end] == s[end]);
    } else if k < end {
        assert(s.take(end)[k] == s[k]);
    }
}

/// The pending bytes hold no separator, and they are all that is left of
/// the stream once its complete records are taken away.
pub proof fn lemma_pending(s: Seq<u8>)
    ensures
        separator_free(pending(s)),
        pending(s).len() <= s.len(),
        complete_records(pending(s)) == Seq::<Seq<u8>>::empty(),
        pending(pending(s)) == pending(s),
    decreases s.len(),
{
    lemma_record_end(s);
    let end = record_end(s);
    if end < s.len() {
        lemma_pending(s.skip(end + 1));
    } else {
        assert(s.take(end) == s);
    }
}

/// A separator-free stream has no complete record and is pending whole.
pub proof fn lemma_separator_free(s: Seq<u8>)
    requires
        separator_free(s),
    ensures
        record_end(s) == s.len(),
        complete_records(s) == Seq::<Seq<u8>>::empty(),
        pending(s) == s,
{
    assert(s.take(s.len() as int) == s);
    lemma_record_end_is(s, s.len() as int);
}

/// Splitting is incremental: the records of `a + b` are those of `a`,
/// followed by those of what `a` left pending with `b` behind it.
pub proof fn lemma_split_append(a: Seq<u8>, b: Seq<u8>)
    ensures
        complete_records(a + b) == complete_records(a) + complete_records(pending(a) + b),
        pending(a + b) == pending(pending(a) + b),
    decreases a.len(),
{
    lemma_record_end(a);
    let end = record_end(a);
    if end < a.len() {
        assert((a + b).take(end) == a.take(end));
        assert((a + b)[end] == a[end]);
        lemma_record_end_is(a + b, end);
        assert((a + b).skip(end + 1) == a.skip(end + 1) + b);
        lemma_split_append(a.skip(end + 1), b);
        let rest = a.skip(end + 1);
        assert(complete_records(a + b) == seq![a.take(end)] + complete_records(rest + b));
        assert(complete_records(a) == seq![a.take(end)] + complete_records(rest));
        assert(seq![a.take(end)] + (complete_records(rest) + complete_records(pending(rest) + b))
            == (seq![a.take(end)] + complete_records(rest)) + complete_records(pending(rest) + b));
    } else {
        assert(complete_records(a) + complete_records(a + b) == complete_records(a + b));
    }
}

/// What one more byte does to the records and to the pending bytes.
pub proof fn lemma_split_push(s: Seq<u8>, b: u8)
    ensures
        is_separator(b) ==> complete_records(s.push(b)) == complete_records(s).push(pending(s))
            && pending(s.push(b)) == Seq::<u8>::empty(),
        !is_separator(b) ==> complete_records(s.push(b)) == complete_records(s) && pending(
            s.push(b),
        ) == pending(s).push(b),
{
    let p = pending(s);
    let t = p + seq![b];
    lemma_split_append(s, seq![b]);
    lemma_pending(s);
    assert(s.push(b) == s + seq![b]);
    assert(t.take(p.len() as int) == p);
    if is_separator(b) {
        lemma_record_end_is(t, p.len() as int);
        assert(t.skip(p.len() as int + 1) == Seq::<u8>::empty());
        assert(complete_records(t) == seq![p] + complete_records(Seq::<u8>::empty()));
        assert(complete_records(t) == seq![p]);
        assert(complete_records(s) + seq![p] == complete_records(s).push(p));
        assert(pending(t) == pending(Seq::<u8>::empty()));
    } else {
        assert(separator_free(t)) by {
            assert forall|j: int| 0 <= j < t.len() implies !is_separator(#[trigger] t[j]) by {
                if j < p.len() {
                    assert(t[j] == p[j]);
                }
            }
        }
        lemma_separator_free(t);
        assert(complete_records(s) + Seq::<Seq<u8>>::empty() == complete_records(s));
        assert(t == p.push(b));
    }
}

/// The number of separators in `s`.
pub open spec fn separator_count(s: Seq<u8>) -> nat
    decreases s.len(),
{
    if s.len() == 0 {
        0
    } else if is_separator(s.last()) {
        separator_count(s.drop_last()) + 1
    } else {
        separator_count(s.drop_last())
    }
}

/// A stream has one complete record for each of its separators, and one
/// record more if bytes follow the last of them. No record holds a
/// separator.
pub proof fn lemma_records_count(s: Seq<u8>)
    ensures
        complete_records(s).len() == separator_count(s),
        records(s).len() == separator_count(s) + if pending(s).len() > 0 {
            1nat
        } else {
            0nat
        },
        forall|i: int| 0 <= i < records(s).len() ==> separator_free(#[trigger] records(s)[i]),
    decreases s.len(),
{
    lemma_pending(s);
    if s.len() > 0 {
        let t = s.drop_last();
        lemma_records_count(t);
        lemma_split_push(t, s.last());
        lemma_pending(t);
        assert(t.push(s.last()) == s);
        assert forall|i: int| 0 <= i < complete_records(s).len() implies separator_free(
            #[trigger] complete_records(s)[i],
        ) by {
            if i < complete_records(t).len() {
                assert(complete_records(t)[i] == records(t)[i]);
            }
        }
        assert forall|i: int| 0 <= i < records(s).len() implies separator_free(
            #[trigger] records(s)[i],
        ) by {
            if i < complete_records(s).len() {
                assert(records(s)[i] == complete_records(s)[i]);
            }
        }
    }
}

/// The number of bytes that reading one record off the front of `s` takes:
/// the record and its separator, or all of `s` where no separator is left.
pub open spec fn consumed_by_record(s: Seq<u8>) -> int {
    if record_end(s) < s.len() {
        record_end(s) + 1
    } else {
        s.len() as int
    }
}

/// Reading record after record off the front of a stream yields its
/// records: a stream that is not empty starts with the bytes before its
/// first separator, and goes on behind that separator. A stream that ends
/// on a separator has no further record behind it.
pub proof fn lemma_records_unfold(s: Seq<u8>)
    ensures
        s.len() == 0 ==> records(s) == Seq::<Seq<u8>>::empty(),
        s.len() > 0 ==> records(s) == seq![s.take(record_end(s))] + records(
            s.skip(consumed_by_record(s)),
        ),
{
    lemma_record_end(s);
    let end = record_end(s);
    if s.len() == 0 {
        assert(records(s) == Seq::<Seq<u8>>::empty());
    } else if end < s.len() {
        let rest = s.skip(end + 1);
        assert(seq![s.take(end)] + (complete_records(rest) + last_record(pending(rest))) == (
        seq![s.take(end)] + complete_records(rest)) + last_record(pending(rest)));
    } else {
        assert(s.take(end) == s);
        assert(s.skip(end) == Seq::<u8>::empty());
        assert(records(s) == seq![s]);
        assert(records(Seq::<u8>::empty()) == Seq::<Seq<u8>>::empty());
        assert(seq![s] + Seq::<Seq<u8>>::empty() == seq![s]);
    }
}

/// Reads the next record off the front of `source`, which holds all that is
/// left of a stream: appends the bytes before the first separator to `buf`,
/// and returns the number of bytes read, the separator included. Where no
/// separator is left, all of `source` is the record. Zero is returned only
/// at the end of the stream.
pub fn read_line(source: &[u8], buf: &mut Vec<u8>) -> (consumed: usize)
    ensures
        final(buf)@ == old(buf)@ + source@.take(record_end(source@)),
        consumed == consumed_by_record(source@),
        consumed == 0 <==> source@.len() == 0,
{
    let mut i: usize = 0;
    proof {
        lemma_record_end(source@);
        assert(old(buf)@ + source@.take(0) == old(buf)@);
    }
    while i < source.len()
        invariant
            i <= source.len(),
            separator_free(source@.take(i as int)),
            buf@ == old(buf)@ + source@.take(i as int),
        decreases source.len() - i,
    {
        let b = source[i];
        if b == NEWLINE_BYTE || b == CARRIAGE_RETURN_BYTE {
            proof {
                lemma_record_end_is(source@, i as int);
            }
            return i + 1;
        }
        buf.push(b);
        proof {
            let seen = source@.take(i + 1);
            assert(seen == source@.take(i as int).push(b));
            assert forall|j: int| 0 <= j < seen.len() implies !is_separator(#[trigger] seen[j]) by {
                if j < i {
                    assert(seen[j] == source@.take(i as int)[j]);
                }
            }
        }
        i += 1;
    }
    proof {
        lemma_record_end_is(source@, source@.len() as int);
    }
    i
}

/// Cuts a byte stream, handed over in chunks of any size, into records.
#[derive(Debug)]
pub struct LineSplitter {
    partial: Vec<u8>,
}

impl View for LineSplitter {
    type V = Seq<u8>;

    /// The bytes read since the last separator.
    closed spec fn view(&self) -> Seq<u8> {
        self.partial@
    }
}

impl LineSplitter {
    /// The pending bytes never hold a separator.
    #[verifier::type_invariant]
    pub open spec fn inv(self) -> bool {
        separator_free(self@)
    }

    /// A splitter at the start of a stream.
    pub fn new() -> (splitter: LineSplitter)
        ensures
            splitter@ == Seq::<u8>::empty(),
    {
        LineSplitter { partial: Vec::new() }
    }

    /// Takes the next byte of the stream. A separator completes the pending
    /// record, which is returned, empty or not; any other byte joins it.
    pub fn feed(&mut self, b: u8) -> (out: Option<Vec<u8>>)
        ensures
            is_separator(b) ==> out.is_some() && out.unwrap()@ == old(self)@ && final(self)@
                == Seq::<u8>::empty(),
            !is_separator(b) ==> out.is_none() && final(self)@ == old(self)@.push(b),
    {
        proof {
            use_type_invariant(&*self);
        }
        let mut partial: Vec<u8> = Vec::new();
        std::mem::swap(&mut self.partial, &mut partial);
        if b == NEWLINE_BYTE || b == CARRIAGE_RETURN_BYTE {
            Some(partial)
        } else {
            partial.push(b);
            self.partial = partial;
            None
        }
    }

    /// Takes the next chunk of the stream and returns the records that it
    /// completes, in order. What follows the chunk's last separator stays
    /// pending.
    pub fn push(&mut self, chunk: &[u8]) -> (out: Vec<Vec<u8>>)
        ensures
            record_views(out@) == complete_records(old(self)@ + chunk@),
            final(self)@ == pending(old(self)@ + chunk@),
    {
        let ghost start = self@;
        proof {
            use_type_invariant(&*self);
            lemma_separator_free(start);
            assert(start + chunk@.take(0) == start);
        }
        let mut out: Vec<Vec<u8>> = Vec::new();
        let mut i: usize = 0;
        while i < chunk.len()
            invariant
                i <= chunk.len(),
                record_views(out@) == complete_records(start + chunk@.take(i as int)),
                self@ == pending(start + chunk@.take(i as int)),
            decreases chunk.len() - i,
        {
            let b = chunk[i];
            proof {
                lemma_split_push(start + chunk@.take(i as int), b);
                assert(chunk@.take(i + 1) == chunk@.take(i as int).push(b));
                assert(start + chunk@.take(i + 1) == (start + chunk@.take(i as int)).push(b));
            }
            match self.feed(b) {
                Some(record) => {
                    assert(record_views(out@.push(record)) == record_views(out@).push(record@));
                    out.push(record);
                },
                None => {},
            }
            i += 1;
        }
        proof {
            assert(chunk@.take(chunk@.len() as int) == chunk@);
        }
        out
    }

    /// Ends the stream: returns the pending bytes as the last record if
    /// there are any, and leaves the splitter as new.
    pub fn finish(&mut self) -> (out: Option<Vec<u8>>)
        ensures
            old(self)@.len() > 0 ==> out.is_some() && out.unwrap()@ == old(self)@,
            old(self)@.len() == 0 ==> out.is_none(),
            final(self)@ == Seq::<u8>::empty(),
    {
        if self.partial.len() > 0 {
            let mut record: Vec<u8> = Vec::new();
            std::mem::swap(&mut self.partial, &mut record);
            Some(record)
        } else {
            None
        }
    }
}

/// Cuts a whole stream into its records, by reading record after record
/// off its front.
pub fn split_records(bytes: &[u8]) -> (out: Vec<Vec<u8>>)
    ensures
        record_views(out@) == records(bytes@),
{
    let mut out: Vec<Vec<u8>> = Vec::new();
    let mut pos: usize = 0;
    proof {
        assert(bytes@.skip(0) == bytes@);
        assert(record_views(out@) + records(bytes@) == records(bytes@));
    }
    while pos < bytes.len()
        invariant
            pos <= bytes.len(),
            records(bytes@) == record_views(out@) + records(bytes@.skip(pos as int)),
        decreases bytes.len() - pos,
    {
        let rest = slice_subrange(bytes, pos, bytes.len());
        let mut record: Vec<u8> = Vec::new();
        let consumed = read_line(rest, &mut record);
        proof {
            let found = record_views(out@);
            let first = rest@.take(record_end(rest@));
            lemma_records_unfold(rest@);
            assert(rest@ == bytes@.skip(pos as int));
            assert(rest@.skip(consumed as int) == bytes@.skip(pos + consumed));
            assert(record@ == first);
            assert(record_views(out@.push(record)) == found.push(first));
            assert(found + (seq![first] + records(rest@.skip(consumed as int))) == found.push(first)
                + records(rest@.skip(consumed as int)));
        }
        out.push(record);
        pos += consumed;
    }
    proof {
        lemma_records_unfold(bytes@.skip(pos as int));
        assert(record_views(out@) + Seq::<Seq<u8>>::empty() == record_views(out@));
    }
    out
}

} // verus!
