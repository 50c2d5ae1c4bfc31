//! The instruction decoder that the renderer relies on.
//!
//! Decoding and formatting x86 code is left to `iced_x86`. Nothing here is
//! proved about what that crate computes; its answer is given a name, and the
//! verified code is exact about everything it does with the answer.

use iced_x86::{Decoder, DecoderOptions, FastFormatter};
use vstd::prelude::*;

verus! {

/// What the decoder reports of one instruction: how many bytes it took and
/// how the instruction reads.
#[derive(Debug)]
pub struct Decoded {
    pub len: usize,
    pub text: String,
}

/// The widths at which code can be decoded.
pub open spec fn valid_bitness(bitness: u32) -> bool {
    bitness == 16 || bitness == 32 || bitness == 64
}

/// The number of bytes and the text that `iced_x86` reports for the first
/// instruction of `code`, decoded at `bitness` with instruction pointer `ip`.
pub uninterp spec fn first_instruction(code: Seq<u8>, bitness: u32, ip: u64) -> (nat, Seq<char>);

/// Decodes and formats the first instruction of `code`.
///
/// Runs `Decoder::try_with_ip` with no decoder options, one `Decoder::decode`,
/// and `FastFormatter::format` with the formatter's defaults on the result.
/// Trusted: when an answer comes back, its length is `Instruction::len` and
/// its text is the formatter's output, and both depend on the three arguments
/// alone. `None` stands for the constructor's refusal, which for a valid
/// bitness is left to a slice it finds too close to the end of the address
/// space; nothing is claimed about when that happens.
#[verifier::external_body]
pub(crate) fn decode_first(code: &[u8], bitness: u32, ip: u64) -> (r: Option<Decoded>)
    requires
        valid_bitness(bitness),
    ensures
        r matches Some(d) ==> (d.len as nat, d.text@) == first_instruction(code@, bitness, ip),
{
    let mut decoder = Decoder::try_with_ip(bitness, code, ip, DecoderOptions::NONE).ok()?;
    let instruction = decoder.decode();
    let mut text = String::new();
    FastFormatter::new().format(&instruction, &mut text);
    Some(Decoded { len: instruction.len(), text })
}

} // verus!
