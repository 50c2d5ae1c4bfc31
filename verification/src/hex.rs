//! Uppercase hexadecimal text: digits, byte strings, 64-bit words, and the
//! padded column in which an instruction's bytes are shown.

use crate::record::le_bytes;
use vstd::prelude::*;
use vstd::string::StringExecFns;

verus! {

/// Width, in bytes, to which the hex column of a line is padded.
pub const HEXBYTES_COLUMN_BYTE_LENGTH: usize = 10;

/// The uppercase hexadecimal digit for a value below 16.
pub open spec fn hex_digit(n: int) -> char
    recommends
        0 <= n < 16,
{
    if n == 0 {
        '0'
    } else if n == 1 {
        '1'
    } else if n == 2 {
        '2'
    } else if n == 3 {
        '3'
    } else if n == 4 {
        '4'
    } else if n == 5 {
        '5'
    } else if n == 6 {
        '6'
    } else if n == 7 {
        '7'
    } else if n == 8 {
        '8'
    } else if n == 9 {
        '9'
    } else if n == 10 {
        'A'
    } else if n == 11 {
        'B'
    } else if n == 12 {
        'C'
    } else if n == 13 {
        'D'
    } else if n == 14 {
        'E'
    } else {
        'F'
    }
}

/// The two digits of a byte, high nibble first.
pub open spec fn hex_pair(b: u8) -> Seq<char> {
    seq![hex_digit(b as int / 16), hex_digit(b as int % 16)]
}

/// The digits of a byte string: two per byte, in order, nothing between them.
pub open spec fn hex_string(bytes: Seq<u8>) -> Seq<char>
    decreases bytes.len(),
{
    if bytes.len() == 0 {
        Seq::empty()
    } else {
        hex_string(bytes.drop_last()) + hex_pair(bytes.last())
    }
}

/// The sixteen digits of a 64-bit word, most significant first, zero-padded.
pub open spec fn hex_word(x: u64) -> Seq<char> {
    let b = le_bytes(x);
    hex_pair(b[7]) + hex_pair(b[6]) + hex_pair(b[5]) + hex_pair(b[4]) + hex_pair(b[3]) + hex_pair(
        b[2],
    ) + hex_pair(b[1]) + hex_pair(b[0])
}

/// A run of `n` spaces.
pub open spec fn spaces(n: nat) -> Seq<char> {
    Seq::new(n, |i: int| ' ')
}

/// The hex column of a line: the digits of `bytes`, then two spaces for each
/// byte by which `bytes` falls short of the column width.
pub open spec fn hex_column(bytes: Seq<u8>) -> Seq<char> {
    if bytes.len() < HEXBYTES_COLUMN_BYTE_LENGTH {
        hex_string(bytes) + spaces((2 * (HEXBYTES_COLUMN_BYTE_LENGTH - bytes.len())) as nat)
    } else {
        hex_string(bytes)
    }
}

/// A byte string has two digits per byte.
pub proof fn lemma_hex_string_len(bytes: Seq<u8>)
    ensures
        hex_string(bytes).len() == 2 * bytes.len(),
    decreases bytes.len(),
{
    if bytes.len() > 0 {
        lemma_hex_string_len(bytes.drop_last());
    }
}

/// Where the digits of byte `i` stand in the digits of a byte string.
pub proof fn lemma_hex_string_index(bytes: Seq<u8>, i: int)
    requires
        0 <= i < bytes.len(),
    ensures
        hex_string(bytes).len() == 2 * bytes.len(),
        hex_string(bytes)[2 * i] == hex_digit(bytes[i] as int / 16),
        hex_string(bytes)[2 * i + 1] == hex_digit(bytes[i] as int % 16),
    decreases bytes.len(),
{
    lemma_hex_string_len(bytes);
    lemma_hex_string_len(bytes.drop_last());
    if i < bytes.len() - 1 {
        lemma_hex_string_index(bytes.drop_last(), i);
    }
}

/// The column is as wide as its digits, and never narrower than ten byte
/// slots: short byte strings are padded up to exactly twenty characters.
pub proof fn lemma_hex_column_len(bytes: Seq<u8>)
    ensures
        hex_column(bytes).len() == if bytes.len() < HEXBYTES_COLUMN_BYTE_LENGTH {
            2 * HEXBYTES_COLUMN_BYTE_LENGTH as int
        } else {
            2 * bytes.len() as int
        },
        hex_column(bytes).subrange(0, 2 * bytes.len() as int) == hex_string(bytes),
        forall|i: int| 2 * bytes.len() <= i < hex_column(bytes).len() ==> hex_column(bytes)[i] == ' ',
{
    lemma_hex_string_len(bytes);
    assert(hex_column(bytes).subrange(0, 2 * bytes.len() as int) =~= hex_string(bytes));
}

/// The one-character text of a digit.
fn digit_str(n: u8) -> (s: &'static str)
    requires
        n < 16,
    ensures
        s@ == seq![hex_digit(n as int)],
{
    proof {
        reveal_strlit("0");
        reveal_strlit("1");
        reveal_strlit("2");
        reveal_strlit("3");
        reveal_strlit("4");
        reveal_strlit("5");
        reveal_strlit("6");
        reveal_strlit("7");
        reveal_strlit("8");
        reveal_strlit("9");
        reveal_strlit("A");
        reveal_strlit("B");
        reveal_strlit("C");
        reveal_strlit("D");
        reveal_strlit("E");
        reveal_strlit("F");
    }
    let s = if n == 0 {
        "0"
    } else if n == 1 {
        "1"
    } else if n == 2 {
        "2"
    } else if n == 3 {
        "3"
    } else if n == 4 {
        "4"
    } else if n == 5 {
        "5"
    } else if n == 6 {
        "6"
    } else if n == 7 {
        "7"
    } else if n == 8 {
        "8"
    } else if n == 9 {
        "9"
    } else if n == 10 {
        "A"
    } else if n == 11 {
        "B"
    } else if n == 12 {
        "C"
    } else if n == 13 {
        "D"
    } else if n == 14 {
        "E"
    } else {
        "F"
    };
    assert(s@ =~= seq![hex_digit(n as int)]);
    s
}

/// Appends the two digits of `b`.
pub fn push_hex_pair(out: &mut String, b: u8)
    ensures
        final(out)@ == old(out)@ + hex_pair(b),
{
    out.append(digit_str(b / 16));
    out.append(digit_str(b % 16));
    assert(out@ =~= old(out)@ + hex_pair(b));
}

/// Appends the digits of `bytes`.
pub fn push_hex_string(out: &mut String, bytes: &[u8])
    ensures
        final(out)@ == old(out)@ + hex_string(bytes@),
{
    let mut i: usize = 0;
    while i < bytes.len()
        invariant
            i <= bytes.len(),
            out@ == old(out)@ + hex_string(bytes@.take(i as int)),
        decreases bytes.len() - i,
    {
        push_hex_pair(out, bytes[i]);
        proof {
            let next = bytes@.take(i + 1);
            assert(next.drop_last() =~= bytes@.take(i as int));
            assert(out@ =~= old(out)@ + hex_string(next));
        }
        i += 1;
    }
    assert(bytes@.take(bytes.len() as int) =~= bytes@);
}

/// Appends `n` spaces.
pub fn push_spaces(out: &mut String, n: usize)
    ensures
        final(out)@ == old(out)@ + spaces(n as nat),
{
    proof {
        reveal_strlit(" ");
    }
    let mut i: usize = 0;
    while i < n
        invariant
            i <= n,
            out@ == old(out)@ + spaces(i as nat),
        decreases n - i,
    {
        out.append(" ");
        proof {
            reveal_strlit(" ");
            assert(out@ =~= old(out)@ + spaces((i + 1) as nat));
        }
        i += 1;
    }
}

/// Appends the sixteen digits of `x`.
pub fn push_hex_word(out: &mut String, x: u64)
    ensures
        final(out)@ == old(out)@ + hex_word(x),
{
    push_hex_pair(out, (x / 0x100_0000_0000_0000 % 0x100) as u8);
    push_hex_pair(out, (x / 0x1_0000_0000_0000 % 0x100) as u8);
    push_hex_pair(out, (x / 0x100_0000_0000 % 0x100) as u8);
    push_hex_pair(out, (x / 0x1_0000_0000 % 0x100) as u8);
    push_hex_pair(out, (x / 0x100_0000 % 0x100) as u8);
    push_hex_pair(out, (x / 0x1_0000 % 0x100) as u8);
    push_hex_pair(out, (x / 0x100 % 0x100) as u8);
    push_hex_pair(out, (x % 0x100) as u8);
    assert(out@ =~= old(out)@ + hex_word(x));
}

/// Appends the hex column for `bytes`.
pub fn push_hex_column(out: &mut String, bytes: &[u8])
    ensures
        final(out)@ == old(out)@ + hex_column(bytes@),
{
    push_hex_string(out, bytes);
    if bytes.len() < HEXBYTES_COLUMN_BYTE_LENGTH {
        push_spaces(out, 2 * (HEXBYTES_COLUMN_BYTE_LENGTH - bytes.len()));
    }
    assert(out@ =~= old(out)@ + hex_column(bytes@));
}

/// The sixteen uppercase digits of `x`.
pub fn format_hex_word(x: u64) -> (s: String)
    ensures
        s@ == hex_word(x),
        s@.len() == 16,
{
    let mut s = String::new();
    push_hex_word(&mut s, x);
    assert(s@ =~= hex_word(x));
    s
}

/// The padded hex column for `bytes`.
pub fn format_hex_column(bytes: &[u8]) -> (s: String)
    ensures
        s@ == hex_column(bytes@),
{
    let mut s = String::new();
    push_hex_column(&mut s, bytes);
    assert(s@ =~= hex_column(bytes@));
    s
}

} // verus!
