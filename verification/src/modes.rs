//! The two ways of walking a trace: system mode, which starts at 16 bits and
//! widens as the trace crosses the configured offsets, and linear mode,
//! which decodes every record at the target width.
//!
//! A `Walk` renders one record at a time; `handle_system_mode`,
//! `handle_linear` and `run` walk to the end and gather the texts.

use crate::bitness::{
    resolved_widths, width_after, BitnessTracker, ConfigError, Transitions, Width,
};
use crate::config::Config;
use crate::record::DATA_SIZE;
use crate::render::{
    lemma_record_without_code, line_prefix, record_text, render_record, text_of, RenderError,
};
use crate::trace::{record_at, record_count, record_offset, Trace};
use vstd::prelude::*;

verus! {

/// The trace offsets of the first `n` records.
pub open spec fn trace_offsets(n: nat) -> Seq<u64> {
    Seq::new(n, |i: int| record_offset(i) as u64)
}

/// The text of every record of a buffer, the record at `i` decoded at
/// `widths[i]`, each on its own: a record's fault does not touch the others.
pub open spec fn trace_texts(buffer: Seq<u8>, widths: Seq<Width>) -> Seq<
    Result<Seq<char>, RenderError>,
>
    recommends
        widths.len() == record_count(buffer),
{
    Seq::new(
        record_count(buffer),
        |i: int| record_text(record_at(buffer, i), record_offset(i) as u64, widths[i].bits()),
    )
}

/// What a run over records with these texts comes to: every text, in order,
/// where all records render; else the fault of the first record that has one.
pub open spec fn outcome_of(
    texts: Seq<Result<Seq<char>, RenderError>>,
    outcome: Result<Seq<Seq<char>>, RenderError>,
) -> bool {
    match outcome {
        Ok(lines) => {
            &&& lines.len() == texts.len()
            &&& forall|i: int| 0 <= i < texts.len() ==> texts[i] == Ok::<Seq<char>, RenderError>(lines[i])
        },
        Err(e) => exists|i: int|
            {
                &&& 0 <= i < texts.len()
                &&& #[trigger] texts[i] == Err::<Seq<char>, RenderError>(e)
                &&& forall|j: int| 0 <= j < i ==> texts[j] is Ok
            },
    }
}

/// The decoder is reached: some record has bytes to decode, and every record
/// before it renders.
pub open spec fn decoder_reached(buffer: Seq<u8>, texts: Seq<Result<Seq<char>, RenderError>>) -> bool {
    exists|i: int|
        {
            &&& 0 <= i < record_count(buffer)
            &&& 0 < (#[trigger] record_at(buffer, i)).size <= DATA_SIZE
            &&& forall|j: int| 0 <= j < i ==> texts[j] is Ok
        }
}

/// What a walk over the records of a buffer comes to. The decoder may refuse
/// to start, but only once it is reached; whenever it does not refuse, the
/// outcome is that of the texts.
pub open spec fn walk_outcome(
    buffer: Seq<u8>,
    texts: Seq<Result<Seq<char>, RenderError>>,
    outcome: Result<Seq<Seq<char>>, RenderError>,
) -> bool {
    if outcome == Err::<Seq<Seq<char>>, RenderError>(RenderError::DecoderUnavailable) {
        decoder_reached(buffer, texts)
    } else {
        outcome_of(texts, outcome)
    }
}

/// The texts of the records of a buffer in system mode.
pub open spec fn system_texts(t: Transitions, buffer: Seq<u8>) -> Seq<
    Result<Seq<char>, RenderError>,
> {
    trace_texts(buffer, resolved_widths(t, trace_offsets(record_count(buffer))))
}

/// The texts of the records of a buffer in linear mode.
pub open spec fn linear_texts(width: Width, buffer: Seq<u8>) -> Seq<Result<Seq<char>, RenderError>> {
    trace_texts(buffer, Seq::new(record_count(buffer), |i: int| width))
}

/// The texts that a run returned, as sequences.
pub open spec fn texts_of(r: Result<Vec<String>, RenderError>) -> Result<
    Seq<Seq<char>>,
    RenderError,
> {
    match r {
        Ok(lines) => Ok(Seq::new(lines@.len(), |i: int| lines@[i]@)),
        Err(e) => Err(e),
    }
}

/// The texts of the records of a buffer in the mode that the configuration
/// asks for, or the configuration's error.
pub open spec fn mode_texts(cli: Config, buffer: Seq<u8>) -> Result<
    Seq<Result<Seq<char>, RenderError>>,
    ConfigError,
> {
    if cli.system_mode {
        match cli.spec_transitions() {
            Ok(t) => Ok(system_texts(t, buffer)),
            Err(e) => Err(e),
        }
    } else {
        match cli.spec_target() {
            Ok(width) => Ok(linear_texts(width, buffer)),
            Err(e) => Err(e),
        }
    }
}

/// What a configuration makes of a buffer: the configuration's error, which
/// comes before any record is looked at, else the outcome of a walk over the
/// mode's texts.
pub open spec fn run_outcome(
    cli: Config,
    buffer: Seq<u8>,
    outcome: Result<Seq<Seq<char>>, RenderError>,
) -> bool {
    match mode_texts(cli, buffer) {
        Err(e) => outcome == Err::<Seq<Seq<char>>, RenderError>(RenderError::Config(e)),
        Ok(texts) => walk_outcome(buffer, texts, outcome),
    }
}

/// How a walk chooses the width of the next record.
#[derive(Copy, Clone, Debug)]
enum Pace {
    Fixed(Width),
    Widening(BitnessTracker),
}

/// A walk over the records of a trace that renders one record at a time, so
/// that each text can be written out before the next record is looked at.
pub struct Walk<'a> {
    trace: &'a Trace,
    pace: Pace,
    index: usize,
}

impl<'a> Walk<'a> {
    #[verifier::type_invariant]
    spec fn well_formed(&self) -> bool {
        &&& self.index <= record_count(self.trace@)
        &&& self.pace matches Pace::Widening(tracker) ==> tracker.width() == width_after(
            tracker.transitions(),
            trace_offsets(record_count(self.trace@)).take(self.index as int),
        )
    }

    /// The bytes of the trace that is walked.
    pub closed spec fn buffer(&self) -> Seq<u8> {
        self.trace@
    }

    /// The text of every record of the trace in the mode of the walk.
    pub closed spec fn texts(&self) -> Seq<Result<Seq<char>, RenderError>> {
        match self.pace {
            Pace::Fixed(width) => linear_texts(width, self.trace@),
            Pace::Widening(tracker) => system_texts(tracker.transitions(), self.trace@),
        }
    }

    /// The number of records walked past.
    pub closed spec fn position(&self) -> nat {
        self.index as nat
    }

    /// A system-mode walk at the first record, or the configuration's error.
    pub fn system(cli: &Config, trace: &'a Trace) -> (r: Result<Walk<'a>, RenderError>)
        ensures
            match cli.spec_transitions() {
                Err(e) => r == Err::<Walk<'a>, RenderError>(RenderError::Config(e)),
                Ok(t) => {
                    &&& r matches Ok(walk)
                    &&& walk.buffer() == trace@
                    &&& walk.texts() == system_texts(t, trace@)
                    &&& walk.position() == 0
                },
            },
    {
        let transitions = match cli.transitions() {
            Ok(t) => t,
            Err(e) => {
                return Err(RenderError::Config(e));
            },
        };
        let tracker = match BitnessTracker::new(
            transitions.target,
            transitions.offset_32bit,
            transitions.offset_64bit,
        ) {
            Ok(tracker) => tracker,
            Err(e) => {
                return Err(RenderError::Config(e));
            },
        };
        assert(trace_offsets(record_count(trace@)).take(0) =~= Seq::<u64>::empty());
        Ok(Walk { trace, pace: Pace::Widening(tracker), index: 0 })
    }

    /// A linear-mode walk at the first record, or the configuration's error.
    /// The transition offsets are not consulted.
    pub fn linear(cli: &Config, trace: &'a Trace) -> (r: Result<Walk<'a>, RenderError>)
        ensures
            match cli.spec_target() {
                Err(e) => r == Err::<Walk<'a>, RenderError>(RenderError::Config(e)),
                Ok(width) => {
                    &&& r matches Ok(walk)
                    &&& walk.buffer() == trace@
                    &&& walk.texts() == linear_texts(width, trace@)
                    &&& walk.position() == 0
                },
            },
    {
        match cli.target() {
            Ok(width) => Ok(Walk { trace, pace: Pace::Fixed(width), index: 0 }),
            Err(e) => Err(RenderError::Config(e)),
        }
    }

    /// A walk in the mode that the configuration asks for.
    pub fn new(cli: &Config, trace: &'a Trace) -> (r: Result<Walk<'a>, RenderError>)
        ensures
            match mode_texts(*cli, trace@) {
                Err(e) => r == Err::<Walk<'a>, RenderError>(RenderError::Config(e)),
                Ok(texts) => {
                    &&& r matches Ok(walk)
                    &&& walk.buffer() == trace@
                    &&& walk.texts() == texts
                    &&& walk.position() == 0
                },
            },
    {
        if cli.system_mode {
            Walk::system(cli, trace)
        } else {
            Walk::linear(cli, trace)
        }
    }

    /// Renders the next record and moves past it; `None` when no record is
    /// left. A record that does not render is passed like any other.
    ///
    /// The result is the record's text, exactly, unless the decoder refused
    /// to start, which it can only do on a record with bytes to decode.
    pub fn next(&mut self) -> (r: Option<Result<String, RenderError>>)
        ensures
            final(self).buffer() == old(self).buffer(),
            final(self).texts() == old(self).texts(),
            old(self).texts().len() == record_count(old(self).buffer()),
            old(self).position() <= record_count(old(self).buffer()),
            match r {
                None => {
                    &&& old(self).position() == record_count(old(self).buffer())
                    &&& final(self).position() == old(self).position()
                },
                Some(text) => {
                    &&& old(self).position() < record_count(old(self).buffer())
                    &&& final(self).position() == old(self).position() + 1
                    &&& text == Err::<String, RenderError>(RenderError::DecoderUnavailable) ==> 0
                        < record_at(old(self).buffer(), old(self).position() as int).size
                        <= DATA_SIZE
                    &&& text != Err::<String, RenderError>(RenderError::DecoderUnavailable)
                        ==> text_of(text) == old(self).texts()[old(self).position() as int]
                },
            },
    {
        proof {
            use_type_invariant(&*self);
        }
        let (offset, record) = match self.trace.record(self.index) {
            Some(next) => next,
            None => {
                return None;
            },
        };
        let ghost offsets = trace_offsets(record_count(self.trace@));
        proof {
            assert(offsets.take(self.index + 1).drop_last() =~= offsets.take(self.index as int));
            assert(offsets.take(self.index + 1).last() == offset);
        }
        let (pace, width) = match self.pace {
            Pace::Fixed(width) => (Pace::Fixed(width), width),
            Pace::Widening(tracker) => {
                let mut tracker = tracker;
                let width = tracker.resolve(offset);
                (Pace::Widening(tracker), width)
            },
        };
        let text = render_record(&record, offset, width.bits());
        *self = Walk { trace: self.trace, pace, index: self.index + 1 };
        Some(text)
    }
}

/// Walks to the end of the trace and gathers the texts, stopping at the
/// first record that does not render.
fn gather(walk: Walk<'_>) -> (r: Result<Vec<String>, RenderError>)
    requires
        walk.position() == 0,
    ensures
        walk_outcome(walk.buffer(), walk.texts(), texts_of(r)),
{
    let mut cursor = walk;
    let ghost buffer = walk.buffer();
    let ghost texts = walk.texts();
    let mut lines: Vec<String> = Vec::new();
    loop
        invariant
            buffer == walk.buffer(),
            texts == walk.texts(),
            cursor.buffer() == buffer,
            cursor.texts() == texts,
            cursor.position() == lines@.len(),
            forall|k: int|
                0 <= k < lines@.len() ==> texts[k] == Ok::<Seq<char>, RenderError>(lines@[k]@),
        ensures
            lines@.len() == texts.len(),
            forall|k: int|
                0 <= k < lines@.len() ==> texts[k] == Ok::<Seq<char>, RenderError>(lines@[k]@),
        decreases record_count(buffer) - cursor.position(),
    {
        let ghost index = cursor.position() as int;
        match cursor.next() {
            None => {
                break ;
            },
            Some(Ok(text)) => {
                lines.push(text);
            },
            Some(Err(e)) => {
                proof {
                    assert(forall|j: int| 0 <= j < index ==> texts[j] is Ok);
                    if e == RenderError::DecoderUnavailable {
                        assert(0 < record_at(buffer, index).size <= DATA_SIZE);
                        assert(decoder_reached(buffer, texts));
                    } else {
                        assert(texts[index] == Err::<Seq<char>, RenderError>(e));
                    }
                }
                return Err(e);
            },
        }
    }
    Ok(lines)
}

/// Renders a trace in system mode: one text per record, the record at trace
/// offset `o` decoded at the width the tracker resolves for `o`.
pub fn handle_system_mode(cli: &Config, trace: &Trace) -> (r: Result<Vec<String>, RenderError>)
    ensures
        match cli.spec_transitions() {
            Err(e) => r == Err::<Vec<String>, RenderError>(RenderError::Config(e)),
            Ok(t) => walk_outcome(trace@, system_texts(t, trace@), texts_of(r)),
        },
{
    match Walk::system(cli, trace) {
        Ok(walk) => gather(walk),
        Err(e) => Err(e),
    }
}

/// Renders a trace in linear mode: one text per record, every record decoded
/// at the target width. The transition offsets are not consulted.
pub fn handle_linear(cli: &Config, trace: &Trace) -> (r: Result<Vec<String>, RenderError>)
    ensures
        match cli.spec_target() {
            Err(e) => r == Err::<Vec<String>, RenderError>(RenderError::Config(e)),
            Ok(width) => walk_outcome(trace@, linear_texts(width, trace@), texts_of(r)),
        },
{
    match Walk::linear(cli, trace) {
        Ok(walk) => gather(walk),
        Err(e) => Err(e),
    }
}

/// Renders a trace in the mode that the configuration asks for.
pub fn run(cli: &Config, trace: &Trace) -> (r: Result<Vec<String>, RenderError>)
    ensures
        run_outcome(*cli, trace@, texts_of(r)),
{
    if cli.system_mode {
        handle_system_mode(cli, trace)
    } else {
        handle_linear(cli, trace)
    }
}

/// Linear mode ignores the transition offsets: two configurations of the
/// same bitness give every record of every buffer the same text.
pub proof fn lemma_linear_ignores_offsets(a: Config, b: Config, buffer: Seq<u8>)
    requires
        a.bits == b.bits,
        !a.system_mode,
        !b.system_mode,
    ensures
        a.spec_target() == b.spec_target(),
        forall|outcome: Result<Seq<Seq<char>>, RenderError>|
            run_outcome(a, buffer, outcome) == run_outcome(b, buffer, outcome),
{
}

/// A trace in which no record has bytes to decode always renders, whatever
/// the widths: the decoder is never asked, every record's text is its
/// prefix, and a trace without records renders to nothing.
pub proof fn lemma_walk_without_code_renders(
    buffer: Seq<u8>,
    widths: Seq<Width>,
    outcome: Result<Seq<Seq<char>>, RenderError>,
)
    requires
        forall|i: int| 0 <= i < record_count(buffer) ==> (#[trigger] record_at(buffer, i)).size == 0,
        walk_outcome(buffer, trace_texts(buffer, widths), outcome),
    ensures
        outcome matches Ok(lines) && lines.len() == record_count(buffer) && forall|i: int|
            0 <= i < record_count(buffer) ==> #[trigger] lines[i] == line_prefix(
                record_at(buffer, i).vaddr,
                record_offset(i) as u64,
            ),
{
    let texts = trace_texts(buffer, widths);
    assert forall|i: int| 0 <= i < record_count(buffer) implies #[trigger] texts[i] == Ok::<
        Seq<char>,
        RenderError,
    >(line_prefix(record_at(buffer, i).vaddr, record_offset(i) as u64)) by {
        lemma_record_without_code(record_at(buffer, i), record_offset(i) as u64, widths[i].bits());
    }
    match outcome {
        Ok(lines) => {
            assert forall|i: int| 0 <= i < record_count(buffer) implies #[trigger] lines[i]
                == line_prefix(record_at(buffer, i).vaddr, record_offset(i) as u64) by {
                assert(texts[i] == Ok::<Seq<char>, RenderError>(lines[i]));
            }
        },
        Err(e) => {
            if e == RenderError::DecoderUnavailable {
                let i = choose|i: int|
                    0 <= i < record_count(buffer) && 0 < (#[trigger] record_at(buffer, i)).size
                        <= DATA_SIZE;
                assert(record_at(buffer, i).size == 0);
            } else {
                let i = choose|i: int|
                    0 <= i < texts.len() && #[trigger] texts[i] == Err::<Seq<char>, RenderError>(e);
                assert(texts[i] is Ok);
            }
        },
    }
}

} // verus!
