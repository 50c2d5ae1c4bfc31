//! The trace buffer and the sequence of records it holds.

use crate::record::{
    decode_record, encode_record, lemma_decode_encode, RecordView, TracedInstruction, DATA_SIZE,
    RECORD_SIZE,
};
use vstd::prelude::*;
use vstd::slice::slice_subrange;

verus! {

/// The number of whole records in a buffer. A tail shorter than a record
/// does not count.
pub open spec fn record_count(buffer: Seq<u8>) -> nat {
    buffer.len() / RECORD_SIZE as nat
}

/// The trace offset of the record at `index`.
pub open spec fn record_offset(index: int) -> int {
    RECORD_SIZE * index
}

/// The record at `index`, decoded from its 40 bytes.
pub open spec fn record_at(buffer: Seq<u8>, index: int) -> RecordView
    recommends
        0 <= index < record_count(buffer),
{
    decode_record(buffer.subrange(record_offset(index), record_offset(index) + RECORD_SIZE))
}

/// The records of a buffer in file order, each with its trace offset.
pub open spec fn records(buffer: Seq<u8>) -> Seq<(int, RecordView)> {
    Seq::new(record_count(buffer), |i: int| (record_offset(i), record_at(buffer, i)))
}

/// A trace: the bytes of a trace file, never changed once loaded.
pub struct Trace {
    buffer: Vec<u8>,
}

impl View for Trace {
    type V = Seq<u8>;

    closed spec fn view(&self) -> Seq<u8> {
        self.buffer@
    }
}

/// A cursor over the records of a trace.
pub struct TraceIter<'a> {
    buffer: &'a [u8],
    cursor: usize,
}

impl Trace {
    /// Takes ownership of the bytes of a trace file.
    pub fn new(buffer: Vec<u8>) -> (trace: Trace)
        ensures
            trace@ == buffer@,
    {
        Trace { buffer }
    }

    /// The bytes of the trace.
    pub fn as_bytes(&self) -> (bytes: &[u8])
        ensures
            bytes@ == self@,
    {
        self.buffer.as_slice()
    }

    /// The number of whole records in the trace.
    pub fn record_count(&self) -> (n: usize)
        ensures
            n == record_count(self@),
    {
        self.buffer.len() / RECORD_SIZE
    }

    /// The record at `index` with its trace offset, if the trace has one there.
    pub fn record(&self, index: usize) -> (r: Option<(u64, TracedInstruction)>)
        ensures
            self@.len() <= usize::MAX,
            match r {
                Some((offset, record)) => {
                    &&& index < record_count(self@)
                    &&& offset == record_offset(index as int)
                    &&& record@ == record_at(self@, index as int)
                },
                None => index >= record_count(self@),
            },
    {
        assert(self.buffer@.len() == self.buffer.len());
        if index >= self.buffer.len() / RECORD_SIZE {
            return None;
        }
        let start = index * RECORD_SIZE;
        let span = slice_subrange(self.buffer.as_slice(), start, start + RECORD_SIZE);
        match TracedInstruction::decode(span) {
            Ok(Some(record)) => Some((start as u64, record)),
            _ => None,
        }
    }

    /// Every record of the trace with its trace offset, in file order.
    pub fn to_vec(&self) -> (all: Vec<(u64, TracedInstruction)>)
        ensures
            all@.len() == records(self@).len(),
            forall|i: int|
                0 <= i < all@.len() ==> all@[i].0 == (#[trigger] records(self@)[i]).0 && all@[i].1@
                    == records(self@)[i].1,
    {
        let mut all: Vec<(u64, TracedInstruction)> = Vec::new();
        let mut iter = self.records();
        let ghost n = records(self@).len();
        assert(records(self@).skip(0) =~= records(self@));
        loop
            invariant
                n == records(self@).len(),
                all@.len() <= n,
                iter.remaining() == records(self@).skip(all@.len() as int),
                forall|i: int|
                    0 <= i < all@.len() ==> all@[i].0 == (#[trigger] records(self@)[i]).0
                        && all@[i].1@ == records(self@)[i].1,
            ensures
                all@.len() == n,
                forall|i: int|
                    0 <= i < all@.len() ==> all@[i].0 == (#[trigger] records(self@)[i]).0
                        && all@[i].1@ == records(self@)[i].1,
            decreases n - all@.len(),
        {
            match iter.next() {
                Some(item) => {
                    all.push(item);
                },
                None => {
                    break ;
                },
            }
        }
        all
    }

    /// A cursor at the first record. Any number of cursors can be taken; each
    /// starts over.
    pub fn records(&self) -> (iter: TraceIter<'_>)
        ensures
            iter.remaining() == records(self@),
            self@.len() <= usize::MAX,
    {
        let iter = TraceIter { buffer: self.buffer.as_slice(), cursor: 0 };
        assert(iter.remaining() =~= records(self@));
        assert(self.buffer@.len() == self.buffer.len());
        iter
    }
}

impl<'a> TraceIter<'a> {
    #[verifier::type_invariant]
    spec fn well_formed(&self) -> bool {
        &&& self.cursor % RECORD_SIZE == 0
        &&& self.cursor <= self.buffer@.len()
    }

    /// The records still to come, each with its trace offset.
    pub closed spec fn remaining(&self) -> Seq<(int, RecordView)> {
        records(self.buffer@).skip(self.cursor as int / RECORD_SIZE as int)
    }

    /// The next record and its trace offset, or `None` when fewer than 40
    /// bytes are left.
    pub fn next(&mut self) -> (r: Option<(u64, TracedInstruction)>)
        ensures
            match r {
                Some((offset, record)) => {
                    &&& old(self).remaining().len() > 0
                    &&& offset == old(self).remaining()[0].0
                    &&& record@ == old(self).remaining()[0].1
                    &&& final(self).remaining() == old(self).remaining().drop_first()
                },
                None => {
                    &&& old(self).remaining().len() == 0
                    &&& final(self).remaining() == old(self).remaining()
                },
            },
    {
        proof {
            use_type_invariant(&*self);
        }
        let left = self.buffer.len() - self.cursor;
        if left < RECORD_SIZE {
            return None;
        }
        let span = slice_subrange(self.buffer, self.cursor, self.cursor + RECORD_SIZE);
        let offset = self.cursor as u64;
        match TracedInstruction::decode(span) {
            Ok(Some(record)) => {
                let ghost index = self.cursor as int / RECORD_SIZE as int;
                assert(record_offset(index) == self.cursor);
                assert(index < record_count(self.buffer@));
                self.cursor = self.cursor + RECORD_SIZE;
                assert(self.remaining() =~= old(self).remaining().drop_first());
                Some((offset, record))
            },
            _ => None,
        }
    }
}

impl From<Vec<u8>> for Trace {
    fn from(buffer: Vec<u8>) -> (trace: Trace)
        ensures
            trace@ == buffer@,
    {
        Trace { buffer }
    }
}

impl vstd::std_specs::convert::FromSpecImpl<Vec<u8>> for Trace {
    open spec fn obeys_from_spec() -> bool {
        true
    }

    closed spec fn from_spec(buffer: Vec<u8>) -> Trace {
        Trace { buffer }
    }
}

/// The bytes of a trace that holds exactly the records `rs`, in order.
pub open spec fn encode_trace(rs: Seq<RecordView>) -> Seq<u8>
    decreases rs.len(),
{
    if rs.len() == 0 {
        Seq::empty()
    } else {
        encode_trace(rs.drop_last()) + encode_record(rs.last())
    }
}

/// A buffer of `n` whole records holds exactly `n` records, in file order:
/// the one at `index` has trace offset `40 * index` and is decoded from the
/// 40 bytes that start there.
pub proof fn lemma_aligned_buffer_records(buffer: Seq<u8>, n: nat)
    requires
        buffer.len() == RECORD_SIZE * n,
    ensures
        records(buffer).len() == n,
        forall|i: int|
            0 <= i < n ==> #[trigger] records(buffer)[i] == (
                40 * i,
                decode_record(buffer.subrange(40 * i, 40 * i + 40)),
            ),
{
}

/// Bytes after the last whole record change nothing: a buffer holds the
/// records of its longest prefix that is a whole number of records long.
pub proof fn lemma_partial_tail_ignored(buffer: Seq<u8>)
    ensures
        records(buffer) == records(buffer.take(RECORD_SIZE * record_count(buffer))),
{
    let n = record_count(buffer);
    let whole = buffer.take(RECORD_SIZE * n);
    assert(record_count(whole) == n);
    assert forall|i: int| 0 <= i < n implies record_at(buffer, i) == record_at(whole, i) by {
        assert(buffer.subrange(record_offset(i), record_offset(i) + RECORD_SIZE) =~= whole.subrange(
            record_offset(i),
            record_offset(i) + RECORD_SIZE,
        ));
    }
    assert(records(buffer) =~= records(whole));
}

/// A trace written record by record reads back as the same records in the
/// same order, the one at `index` with trace offset `40 * index`.
pub proof fn lemma_records_of_encoded_trace(rs: Seq<RecordView>)
    requires
        forall|i: int| 0 <= i < rs.len() ==> (#[trigger] rs[i]).data.len() == DATA_SIZE,
    ensures
        encode_trace(rs).len() == RECORD_SIZE * rs.len(),
        records(encode_trace(rs)).len() == rs.len(),
        forall|i: int| 0 <= i < rs.len() ==> #[trigger] records(encode_trace(rs))[i] == (40 * i, rs[i]),
    decreases rs.len(),
{
    if rs.len() > 0 {
        let before = rs.drop_last();
        let n = before.len() as int;
        lemma_records_of_encoded_trace(before);
        lemma_decode_encode(rs.last());
        let whole = encode_trace(rs);
        assert(whole.subrange(40 * n, 40 * n + 40) =~= encode_record(rs.last()));
        assert forall|i: int| 0 <= i < rs.len() implies #[trigger] records(whole)[i] == (
            40 * i,
            rs[i],
        ) by {
            if i < n {
                assert(whole.subrange(40 * i, 40 * i + 40) =~= encode_trace(before).subrange(
                    40 * i,
                    40 * i + 40,
                ));
                assert(records(encode_trace(before))[i] == (40 * i, before[i]));
            }
        }
    }
}

} // verus!
