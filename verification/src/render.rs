//! Rendering decoded instructions as text lines.

use crate::bitness::ConfigError;
use crate::decode::{decode_first, first_instruction, valid_bitness, Decoded};
use crate::hex::{hex_column, hex_word, push_hex_column, push_hex_word, push_spaces, spaces};
use crate::record::{RecordView, TracedInstruction, DATA_SIZE};
use vstd::prelude::*;
use vstd::slice::slice_subrange;
use vstd::string::StringExecFns;

verus! {

/// Why a trace could not be rendered.
#[derive(Copy, Clone, Debug, PartialEq, Eq, Structural)]
pub enum RenderError {
    /// The configuration was rejected before any record was looked at.
    Config(ConfigError),
    /// The record at this trace offset claims more opcode bytes than a
    /// record can hold.
    BadLength { offset: u64, size: u8 },
    /// The decoder reported an instruction of no bytes, or of more bytes than
    /// it was given.
    DecodeMismatch,
    /// The decoder refused to start on the bytes it was given.
    DecoderUnavailable,
}

/// One output line: the padded hex column of the instruction's bytes, a
/// space, the instruction's text, a line break.
pub open spec fn instruction_line(bytes: Seq<u8>, text: Seq<char>) -> Seq<char> {
    hex_column(bytes) + seq![' '] + text + seq!['\n']
}

/// The line for an instruction that the decoder reports at the start of
/// `code`, or the fault where the reported length cannot be a prefix of `code`.
pub open spec fn decoded_line(code: Seq<u8>, len: nat, text: Seq<char>) -> Result<
    Seq<char>,
    RenderError,
> {
    if len == 0 || len > code.len() {
        Err(RenderError::DecodeMismatch)
    } else {
        Ok(instruction_line(code.take(len as int), text))
    }
}

/// The text for all of `code`: the line of its first instruction, then the
/// text for what follows it, with the instruction pointer moved on by the
/// instruction's length; or the first fault met on the way.
pub open spec fn disassembly(code: Seq<u8>, bitness: u32, rip: u64) -> Result<
    Seq<char>,
    RenderError,
>
    decreases code.len(),
{
    if code.len() == 0 {
        Ok(Seq::empty())
    } else {
        let (len, text) = first_instruction(code, bitness, rip);
        match decoded_line(code, len, text) {
            Err(e) => Err(e),
            Ok(line) => match disassembly(
                code.skip(len as int),
                bitness,
                rip.wrapping_add(len as u64),
            ) {
                Err(e) => Err(e),
                Ok(rest) => Ok(line + rest),
            },
        }
    }
}

/// Appends the line for `bytes` and `text`.
pub fn push_instruction_line(out: &mut String, bytes: &[u8], text: &str)
    ensures
        final(out)@ == old(out)@ + instruction_line(bytes@, text@),
{
    proof {
        reveal_strlit(" ");
        reveal_strlit("\n");
    }
    push_hex_column(out, bytes);
    out.append(" ");
    out.append(text);
    out.append("\n");
    assert(out@ =~= old(out)@ + instruction_line(bytes@, text@));
}

/// Renders the instruction that the decoder reported at the start of `code`.
pub fn render_decoded(code: &[u8], decoded: &Decoded) -> (r: Result<String, RenderError>)
    ensures
        match r {
            Ok(line) => decoded_line(code@, decoded.len as nat, decoded.text@) == Ok::<
                Seq<char>,
                RenderError,
            >(line@),
            Err(e) => decoded_line(code@, decoded.len as nat, decoded.text@) == Err::<
                Seq<char>,
                RenderError,
            >(e),
        },
{
    if decoded.len == 0 || decoded.len > code.len() {
        return Err(RenderError::DecodeMismatch);
    }
    let mut line = String::new();
    push_instruction_line(&mut line, slice_subrange(code, 0, decoded.len), decoded.text.as_str());
    assert(line@ =~= instruction_line(code@.take(decoded.len as int), decoded.text@));
    Ok(line)
}

/// What a rendering returned, with the text as a sequence.
pub open spec fn text_of(r: Result<String, RenderError>) -> Result<Seq<char>, RenderError> {
    match r {
        Ok(text) => Ok(text@),
        Err(e) => Err(e),
    }
}

/// `rest` with `prefix` put in front of its text, where it has one.
pub open spec fn prepend(prefix: Seq<char>, rest: Result<Seq<char>, RenderError>) -> Result<
    Seq<char>,
    RenderError,
> {
    match rest {
        Ok(text) => Ok(prefix + text),
        Err(e) => Err(e),
    }
}

/// Disassembles `code` at `bitness`, taking `rip` as the address of its first
/// byte, into one line per instruction.
///
/// The decoder is asked for the first instruction of what is left until
/// nothing is left. Whatever it answers, the result is exactly `disassembly`;
/// a refusal of the decoder to start ends the run with `DecoderUnavailable`,
/// which can only happen where there is code to decode.
pub fn disassemble(code: &[u8], bitness: u32, rip: u64) -> (r: Result<String, RenderError>)
    requires
        valid_bitness(bitness),
    ensures
        r == Err::<String, RenderError>(RenderError::DecoderUnavailable) ==> code@.len() > 0,
        r != Err::<String, RenderError>(RenderError::DecoderUnavailable) ==> text_of(r)
            == disassembly(code@, bitness, rip),
{
    let mut out = String::new();
    let mut pos: usize = 0;
    let mut ip = rip;
    assert(code@.skip(0) =~= code@);
    proof {
        if let Ok(text) = disassembly(code@, bitness, rip) {
            assert(out@ + text =~= text);
        }
    }
    while pos < code.len()
        invariant
            pos <= code.len(),
            valid_bitness(bitness),
            disassembly(code@, bitness, rip) == prepend(
                out@,
                disassembly(code@.skip(pos as int), bitness, ip),
            ),
        decreases code.len() - pos,
    {
        let rest = slice_subrange(code, pos, code.len());
        assert(rest@ =~= code@.skip(pos as int));
        let decoded = match decode_first(rest, bitness, ip) {
            Some(decoded) => decoded,
            None => {
                return Err(RenderError::DecoderUnavailable);
            },
        };
        let line = match render_decoded(rest, &decoded) {
            Ok(line) => line,
            Err(e) => {
                return Err(e);
            },
        };
        proof {
            let tail = disassembly(
                rest@.skip(decoded.len as int),
                bitness,
                ip.wrapping_add(decoded.len as u64),
            );
            assert(rest@.skip(decoded.len as int) =~= code@.skip(pos + decoded.len));
            assert(disassembly(rest@, bitness, ip) == prepend(line@, tail));
            if let Ok(text) = tail {
                assert(out@ + (line@ + text) =~= (out@ + line@) + text);
            }
        }
        out.append(line.as_str());
        pos += decoded.len;
        ip = ip.wrapping_add(decoded.len as u64);
    }
    assert(out@ + Seq::<char>::empty() =~= out@);
    Ok(out)
}

/// Number of spaces after each address column.
pub const ADDRESS_GAP: usize = 3;

/// What a record's text starts with: the virtual address and the trace
/// offset, sixteen digits each, each followed by the gap.
pub open spec fn line_prefix(vaddr: u64, offset: u64) -> Seq<char> {
    hex_word(vaddr) + spaces(ADDRESS_GAP as nat) + hex_word(offset) + spaces(ADDRESS_GAP as nat)
}

/// The text of one record at trace offset `offset`, decoded at `bitness`:
/// the prefix, then the disassembly of the record's meaningful bytes from
/// instruction pointer zero. A length byte beyond the opcode buffer is a fault.
pub open spec fn record_text(record: RecordView, offset: u64, bitness: u32) -> Result<
    Seq<char>,
    RenderError,
> {
    if record.size > DATA_SIZE {
        Err(RenderError::BadLength { offset, size: record.size })
    } else {
        prepend(
            line_prefix(record.vaddr, offset),
            disassembly(record.data.take(record.size as int), bitness, 0),
        )
    }
}

/// The text of a record without bytes is its prefix, at any width.
pub proof fn lemma_record_without_code(record: RecordView, offset: u64, bitness: u32)
    requires
        record.size == 0,
    ensures
        record_text(record, offset, bitness) == Ok::<Seq<char>, RenderError>(
            line_prefix(record.vaddr, offset),
        ),
{
    assert(record.data.take(0).len() == 0);
    assert(line_prefix(record.vaddr, offset) + Seq::<char>::empty() =~= line_prefix(
        record.vaddr,
        offset,
    ));
}

/// Renders one record at trace offset `offset`, decoded at `bitness`.
///
/// A length byte beyond the opcode buffer is reported before the decoder is
/// asked anything, and a record without bytes needs no decoder: only a record
/// with bytes to decode can end in `DecoderUnavailable`. In every other case
/// the result is exactly `record_text`.
pub fn render_record(record: &TracedInstruction, offset: u64, bitness: u32) -> (r: Result<
    String,
    RenderError,
>)
    requires
        valid_bitness(bitness),
    ensures
        record.size > DATA_SIZE ==> r == Err::<String, RenderError>(
            RenderError::BadLength { offset, size: record.size },
        ),
        record.size == 0 ==> text_of(r) == Ok::<Seq<char>, RenderError>(
            line_prefix(record.vaddr, offset),
        ),
        r == Err::<String, RenderError>(RenderError::DecoderUnavailable) ==> 0 < record.size
            <= DATA_SIZE,
        r != Err::<String, RenderError>(RenderError::DecoderUnavailable) ==> text_of(r)
            == record_text(record@, offset, bitness),
{
    let code = match record.code() {
        Some(code) => code,
        None => {
            return Err(RenderError::BadLength { offset, size: record.size });
        },
    };
    let body = match disassemble(code, bitness, 0) {
        Ok(body) => body,
        Err(e) => {
            return Err(e);
        },
    };
    let mut text = String::new();
    push_hex_word(&mut text, record.vaddr);
    push_spaces(&mut text, ADDRESS_GAP);
    push_hex_word(&mut text, offset);
    push_spaces(&mut text, ADDRESS_GAP);
    text.append(body.as_str());
    assert(text@ =~= line_prefix(record.vaddr, offset) + body@);
    assert(record.size == 0 ==> body@ =~= Seq::<char>::empty());
    Ok(text)
}

} // verus!
