//! The fixed-size trace record and its wire format.

use vstd::prelude::*;

verus! {

/// Bytes occupied by one record on the wire: the three fields, the opcode
/// buffer, and seven bytes of tail padding that keep records 8-byte aligned.
pub const RECORD_SIZE: usize = 40;

/// Capacity of the opcode buffer of a record.
pub const DATA_SIZE: usize = 16;

/// One captured instruction execution.
#[derive(Copy, Clone, Debug)]
pub struct TracedInstruction {
    /// Address of the instruction in the tracing host's memory.
    pub haddr: u64,
    /// Guest virtual address at which the instruction executed.
    pub vaddr: u64,
    /// Number of meaningful bytes at the start of `data`.
    pub size: u8,
    /// Opcode bytes; everything from index `size` on is padding.
    pub data: [u8; 16],
}

/// Mathematical model of a record: the opcode buffer as a sequence.
pub struct RecordView {
    pub haddr: u64,
    pub vaddr: u64,
    pub size: u8,
    pub data: Seq<u8>,
}

impl View for TracedInstruction {
    type V = RecordView;

    open spec fn view(&self) -> RecordView {
        RecordView { haddr: self.haddr, vaddr: self.vaddr, size: self.size, data: self.data@ }
    }
}

/// Why a byte span does not hold a record.
#[derive(Copy, Clone, Debug, PartialEq, Eq, Structural)]
pub enum RecordError {
    /// The span is not empty but shorter than one record.
    Truncated,
}

/// The number that eight bytes denote when read least significant byte first.
pub open spec fn le_u64(b: Seq<u8>) -> int
    recommends
        b.len() == 8,
{
    b[0] + b[1] * 0x100 + b[2] * 0x1_0000 + b[3] * 0x100_0000 + b[4] * 0x1_0000_0000 + b[5]
        * 0x100_0000_0000 + b[6] * 0x1_0000_0000_0000 + b[7] * 0x100_0000_0000_0000
}

/// The eight bytes of `x`, least significant first.
pub open spec fn le_bytes(x: u64) -> Seq<u8> {
    seq![
        (x % 0x100) as u8,
        (x / 0x100 % 0x100) as u8,
        (x / 0x1_0000 % 0x100) as u8,
        (x / 0x100_0000 % 0x100) as u8,
        (x / 0x1_0000_0000 % 0x100) as u8,
        (x / 0x100_0000_0000 % 0x100) as u8,
        (x / 0x1_0000_0000_0000 % 0x100) as u8,
        (x / 0x100_0000_0000_0000 % 0x100) as u8,
    ]
}

/// Eight bytes read least significant first always fit in 64 bits.
pub proof fn lemma_le_u64_bounds(b: Seq<u8>)
    requires
        b.len() == 8,
    ensures
        0 <= le_u64(b) <= u64::MAX,
{
}

/// Writing a number out and reading it back gives the number.
pub proof fn lemma_le_round_trip(x: u64)
    ensures
        le_bytes(x).len() == 8,
        le_u64(le_bytes(x)) == x,
{
    let q1 = x / 0x100;
    let q2 = q1 / 0x100;
    let q3 = q2 / 0x100;
    let q4 = q3 / 0x100;
    let q5 = q4 / 0x100;
    let q6 = q5 / 0x100;
    let q7 = q6 / 0x100;
    assert(q2 == x / 0x1_0000);
    assert(q3 == x / 0x100_0000);
    assert(q4 == x / 0x1_0000_0000);
    assert(q5 == x / 0x100_0000_0000);
    assert(q6 == x / 0x1_0000_0000_0000);
    assert(q7 == x / 0x100_0000_0000_0000);
}

/// The record that the first 40 bytes of `b` encode: the two addresses at
/// offsets 0 and 8, the length byte at 16, the opcode buffer at 17. The seven
/// bytes from 33 on are padding and do not contribute.
pub open spec fn decode_record(b: Seq<u8>) -> RecordView
    recommends
        b.len() >= RECORD_SIZE,
{
    RecordView {
        haddr: le_u64(b.subrange(0, 8)) as u64,
        vaddr: le_u64(b.subrange(8, 16)) as u64,
        size: b[16],
        data: b.subrange(17, 33),
    }
}

/// The 40 bytes that encode `r`, with zeroed padding.
pub open spec fn encode_record(r: RecordView) -> Seq<u8>
    recommends
        r.data.len() == DATA_SIZE,
{
    le_bytes(r.haddr) + le_bytes(r.vaddr) + seq![r.size] + r.data + Seq::new(7, |i: int| 0u8)
}

/// What decoding a span yields: nothing at the end of the sequence, an error
/// for a span too short to hold a record, else the record in its first 40 bytes.
pub open spec fn decode_span(b: Seq<u8>) -> Result<Option<RecordView>, RecordError> {
    if b.len() == 0 {
        Ok(None)
    } else if b.len() < RECORD_SIZE {
        Err(RecordError::Truncated)
    } else {
        Ok(Some(decode_record(b)))
    }
}

/// Encoding a record and decoding the bytes gives the record back, opcode
/// padding included.
pub proof fn lemma_decode_encode(r: RecordView)
    requires
        r.data.len() == DATA_SIZE,
    ensures
        encode_record(r).len() == RECORD_SIZE,
        decode_record(encode_record(r)) == r,
        decode_span(encode_record(r)) == Ok::<Option<RecordView>, RecordError>(Some(r)),
{
    let b = encode_record(r);
    lemma_le_round_trip(r.haddr);
    lemma_le_round_trip(r.vaddr);
    assert(b.subrange(0, 8) =~= le_bytes(r.haddr));
    assert(b.subrange(8, 16) =~= le_bytes(r.vaddr));
    assert(b.subrange(17, 33) =~= r.data);
}

/// Reads the eight bytes at `at` as a little-endian number.
fn read_u64_le(b: &[u8], at: usize) -> (x: u64)
    requires
        at + 8 <= b.len(),
    ensures
        x == le_u64(b@.subrange(at as int, at + 8)),
{
    let v7: u64 = b[at + 7] as u64;
    let v6: u64 = v7 * 0x100 + b[at + 6] as u64;
    let v5: u64 = v6 * 0x100 + b[at + 5] as u64;
    let v4: u64 = v5 * 0x100 + b[at + 4] as u64;
    let v3: u64 = v4 * 0x100 + b[at + 3] as u64;
    let v2: u64 = v3 * 0x100 + b[at + 2] as u64;
    let v1: u64 = v2 * 0x100 + b[at + 1] as u64;
    let v0: u64 = v1 * 0x100 + b[at] as u64;
    v0
}

/// Appends the eight bytes of `x`, least significant first.
fn push_u64_le(out: &mut Vec<u8>, x: u64)
    ensures
        final(out)@ == old(out)@ + le_bytes(x),
{
    out.push((x % 0x100) as u8);
    out.push((x / 0x100 % 0x100) as u8);
    out.push((x / 0x1_0000 % 0x100) as u8);
    out.push((x / 0x100_0000 % 0x100) as u8);
    out.push((x / 0x1_0000_0000 % 0x100) as u8);
    out.push((x / 0x100_0000_0000 % 0x100) as u8);
    out.push((x / 0x1_0000_0000_0000 % 0x100) as u8);
    out.push((x / 0x100_0000_0000_0000 % 0x100) as u8);
    assert(out@ =~= old(out)@ + le_bytes(x));
}

impl TracedInstruction {
    /// The length byte stays within the opcode buffer.
    pub open spec fn well_formed(&self) -> bool {
        self.size <= DATA_SIZE
    }

    /// Decodes one record from the start of `span`.
    pub fn decode(span: &[u8]) -> (r: Result<Option<TracedInstruction>, RecordError>)
        ensures
            match r {
                Ok(Some(rec)) => decode_span(span@) == Ok::<Option<RecordView>, RecordError>(
                    Some(rec@),
                ),
                Ok(None) => decode_span(span@) == Ok::<Option<RecordView>, RecordError>(None),
                Err(e) => decode_span(span@) == Err::<Option<RecordView>, RecordError>(e),
            },
    {
        if span.len() == 0 {
            return Ok(None);
        }
        if span.len() < RECORD_SIZE {
            return Err(RecordError::Truncated);
        }
        let haddr = read_u64_le(span, 0);
        let vaddr = read_u64_le(span, 8);
        let size = span[16];
        let data: [u8; 16] = [
            span[17],
            span[18],
            span[19],
            span[20],
            span[21],
            span[22],
            span[23],
            span[24],
            span[25],
            span[26],
            span[27],
            span[28],
            span[29],
            span[30],
            span[31],
            span[32],
        ];
        assert(data@ =~= span@.subrange(17, 33));
        Ok(Some(TracedInstruction { haddr, vaddr, size, data }))
    }

    /// Encodes the record as its 40 wire bytes, padding zeroed.
    pub fn encode(&self) -> (out: Vec<u8>)
        ensures
            out@ == encode_record(self@),
            out@.len() == RECORD_SIZE,
    {
        let mut out: Vec<u8> = Vec::new();
        push_u64_le(&mut out, self.haddr);
        push_u64_le(&mut out, self.vaddr);
        out.push(self.size);
        let mut i: usize = 0;
        while i < DATA_SIZE
            invariant
                i <= DATA_SIZE,
                out@ == le_bytes(self.haddr) + le_bytes(self.vaddr) + seq![self.size]
                    + self.data@.take(i as int),
            decreases DATA_SIZE - i,
        {
            out.push(self.data[i]);
            assert(self.data@.take(i + 1) =~= self.data@.take(i as int).push(self.data@[i as int]));
            i += 1;
        }
        assert(self.data@.take(DATA_SIZE as int) =~= self.data@);
        let mut k: usize = 0;
        while k < 7
            invariant
                k <= 7,
                out@ == le_bytes(self.haddr) + le_bytes(self.vaddr) + seq![self.size] + self.data@
                    + Seq::new(k as nat, |i: int| 0u8),
            decreases 7 - k,
        {
            out.push(0u8);
            assert(Seq::new((k + 1) as nat, |i: int| 0u8) =~= Seq::new(k as nat, |i: int| 0u8).push(
                0u8,
            ));
            k += 1;
        }
        out
    }

    /// The meaningful opcode bytes, where the length byte is within the buffer.
    pub fn code(&self) -> (r: Option<&[u8]>)
        ensures
            self.well_formed() <==> r is Some,
            r matches Some(s) ==> s@ == self.data@.take(self.size as int),
    {
        if self.size as usize <= DATA_SIZE {
            let all = self.data.as_slice();
            Some(vstd::slice::slice_subrange(all, 0, self.size as usize))
        } else {
            None
        }
    }
}

} // verus!
