//! Trace offsets as written on the command line: hexadecimal, with or
//! without a leading `0x`.

use vstd::prelude::*;
use vstd::slice::slice_subrange;
use vstd::string::StringSliceAdditionalSpecFns;

verus! {

/// Why a text is not a trace offset.
#[derive(Copy, Clone, Debug, PartialEq, Eq, Structural)]
pub enum OffsetError {
    /// The text is empty.
    Empty,
    /// The text holds something that is no hexadecimal digit.
    InvalidDigit,
    /// The number does not fit in 64 bits.
    Overflow,
}

/// The value of a hexadecimal digit in either case.
pub open spec fn digit_value(b: u8) -> Option<int> {
    if 0x30 <= b <= 0x39 {
        Some(b - 0x30)
    } else if 0x61 <= b <= 0x66 {
        Some(b - 0x61 + 10)
    } else if 0x41 <= b <= 0x46 {
        Some(b - 0x41 + 10)
    } else {
        None
    }
}

/// The number that a string of digits denotes, most significant digit first.
pub open spec fn digits_value(d: Seq<u8>) -> int
    decreases d.len(),
{
    if d.len() == 0 {
        0
    } else {
        16 * digits_value(d.drop_last()) + match digit_value(d.last()) {
            Some(v) => v,
            None => 0,
        }
    }
}

/// The length of the longest prefix of `d` made of digits alone.
pub open spec fn digit_run(d: Seq<u8>) -> nat
    decreases d.len(),
{
    if d.len() == 0 || digit_value(d[0]) is None {
        0
    } else {
        1 + digit_run(d.skip(1))
    }
}

/// `s` without a leading `+`, where something follows the sign.
pub open spec fn strip_sign(s: Seq<u8>) -> Seq<u8> {
    if s.len() > 1 && s[0] == 0x2b {
        s.skip(1)
    } else {
        s
    }
}

/// `s` without a leading `0x`, where something follows the prefix.
pub open spec fn strip_prefix(s: Seq<u8>) -> Seq<u8> {
    if s.len() > 2 && s[0] == 0x30 && s[1] == 0x78 {
        s.skip(2)
    } else {
        s
    }
}

/// The number that `s` denotes as hexadecimal text: an optional `+`, then
/// digits only. Reading left to right, the first thing that is wrong decides
/// the error: digits that run past 64 bits before anything else is met are
/// an overflow, and anything that is no digit is an invalid digit.
pub open spec fn parse_hex(s: Seq<u8>) -> Result<u64, OffsetError> {
    let d = strip_sign(s);
    let run = d.take(digit_run(d) as int);
    if s.len() == 0 {
        Err(OffsetError::Empty)
    } else if digits_value(run) > u64::MAX {
        Err(OffsetError::Overflow)
    } else if run.len() < d.len() {
        Err(OffsetError::InvalidDigit)
    } else {
        Ok(digits_value(run) as u64)
    }
}

/// The offset that the bytes of a command-line argument denote.
pub open spec fn parsed_offset(s: Seq<u8>) -> Result<u64, OffsetError> {
    parse_hex(strip_prefix(s))
}

/// A run of digits ends at the first byte that is no digit.
proof fn lemma_digit_run(d: Seq<u8>, i: int)
    requires
        0 <= i <= d.len(),
        forall|k: int| 0 <= k < i ==> digit_value(#[trigger] d[k]) is Some,
        i < d.len() ==> digit_value(d[i]) is None,
    ensures
        digit_run(d) == i,
    decreases i,
{
    if i > 0 {
        let rest = d.skip(1);
        assert forall|k: int| 0 <= k < i - 1 implies digit_value(#[trigger] rest[k]) is Some by {
            assert(rest[k] == d[k + 1]);
        }
        lemma_digit_run(rest, i - 1);
    }
}

/// A longer prefix never denotes less than a shorter one.
proof fn lemma_digits_value_grows(d: Seq<u8>, i: int, j: int)
    requires
        0 <= i <= j <= d.len(),
    ensures
        0 <= digits_value(d.take(i)) <= digits_value(d.take(j)),
    decreases j - i,
{
    if i < j {
        lemma_digits_value_grows(d, i, j - 1);
        assert(d.take(j).drop_last() =~= d.take(j - 1));
    } else {
        lemma_digits_value_nonnegative(d.take(i));
    }
}

proof fn lemma_digits_value_nonnegative(d: Seq<u8>)
    ensures
        0 <= digits_value(d),
    decreases d.len(),
{
    if d.len() > 0 {
        lemma_digits_value_nonnegative(d.drop_last());
    }
}

/// The value of one digit.
fn hex_value(b: u8) -> (v: Option<u8>)
    ensures
        match v {
            Some(v) => digit_value(b) == Some(v as int) && v < 16,
            None => digit_value(b) is None,
        },
{
    if 0x30 <= b && b <= 0x39 {
        Some(b - 0x30)
    } else if 0x61 <= b && b <= 0x66 {
        Some(b - 0x61 + 10)
    } else if 0x41 <= b && b <= 0x46 {
        Some(b - 0x41 + 10)
    } else {
        None
    }
}

/// Parses hexadecimal text given as bytes: an optional `+`, then digits.
pub fn parse_hex_bytes(s: &[u8]) -> (r: Result<u64, OffsetError>)
    ensures
        r == parse_hex(s@),
{
    if s.len() == 0 {
        return Err(OffsetError::Empty);
    }
    let d = if s.len() > 1 && s[0] == 0x2b {
        slice_subrange(s, 1, s.len())
    } else {
        s
    };
    assert(d@ =~= strip_sign(s@));
    let mut acc: u64 = 0;
    let mut i: usize = 0;
    while i < d.len()
        invariant
            i <= d.len(),
            s@.len() > 0,
            d@ == strip_sign(s@),
            forall|k: int| 0 <= k < i ==> digit_value(#[trigger] d@[k]) is Some,
            acc == digits_value(d@.take(i as int)),
        decreases d.len() - i,
    {
        let v = match hex_value(d[i]) {
            Some(v) => v,
            None => {
                proof {
                    lemma_digit_run(d@, i as int);
                }
                return Err(OffsetError::InvalidDigit);
            },
        };
        proof {
            assert(d@.take(i + 1).drop_last() =~= d@.take(i as int));
            assert(digits_value(d@.take(i + 1)) == 16 * acc + v);
        }
        if acc > (u64::MAX - v as u64) / 16 {
            proof {
                let first_bad = choose_run_end(d@, i + 1);
                lemma_digit_run(d@, first_bad);
                lemma_digits_value_grows(d@, i + 1, first_bad);
            }
            return Err(OffsetError::Overflow);
        }
        acc = acc * 16 + v as u64;
        i += 1;
    }
    proof {
        lemma_digit_run(d@, d@.len() as int);
        assert(d@.take(d@.len() as int) =~= d@);
    }
    Ok(acc)
}

/// Where the run of digits that covers the first `i` bytes of `d` ends.
proof fn choose_run_end(d: Seq<u8>, i: int) -> (end: int)
    requires
        0 <= i <= d.len(),
        forall|k: int| 0 <= k < i ==> digit_value(#[trigger] d[k]) is Some,
    ensures
        i <= end <= d.len(),
        forall|k: int| 0 <= k < end ==> digit_value(#[trigger] d[k]) is Some,
        end < d.len() ==> digit_value(d[end]) is None,
    decreases d.len() - i,
{
    if i < d.len() && digit_value(d[i]) is Some {
        choose_run_end(d, i + 1)
    } else {
        i
    }
}

/// Parses a trace offset given as bytes: hexadecimal, with an optional
/// leading `0x`.
pub fn parse_offset_bytes(src: &[u8]) -> (r: Result<u64, OffsetError>)
    ensures
        r == parsed_offset(src@),
{
    if src.len() > 2 && src[0] == 0x30 && src[1] == 0x78 {
        let rest = slice_subrange(src, 2, src.len());
        assert(rest@ =~= strip_prefix(src@));
        parse_hex_bytes(rest)
    } else {
        parse_hex_bytes(src)
    }
}

/// Parses a trace offset: hexadecimal, with an optional leading `0x`.
pub fn parse_offset(src: &str) -> (r: Result<u64, OffsetError>)
    ensures
        r == parsed_offset(src.spec_bytes()),
{
    parse_offset_bytes(src.as_bytes())
}

} // verus!
