use std::num::IntErrorKind;
use tracedis::offset::{parse_hex_bytes, parse_offset, parse_offset_bytes, OffsetError};

fn with_std(src: &str) -> Result<u64, OffsetError> {
    let parsed = if src.len() > 2 && src.as_bytes()[0..2] == *b"0x" {
        u64::from_str_radix(&src[2..], 16)
    } else {
        u64::from_str_radix(src, 16)
    };
    parsed.map_err(|e| match e.kind() {
        IntErrorKind::Empty => OffsetError::Empty,
        IntErrorKind::InvalidDigit => OffsetError::InvalidDigit,
        IntErrorKind::PosOverflow => OffsetError::Overflow,
        other => panic!("unexpected error kind {:?}", other),
    })
}

#[test]
fn plain_hexadecimal() {
    assert_eq!(parse_offset("0"), Ok(0));
    assert_eq!(parse_offset("1f"), Ok(31));
    assert_eq!(parse_offset("1F"), Ok(31));
    assert_eq!(parse_offset("7c00"), Ok(0x7C00));
    assert_eq!(parse_offset("deadBEEF"), Ok(0xDEAD_BEEF));
    assert_eq!(parse_offset("10"), Ok(16));
}

#[test]
fn prefix_is_tolerated() {
    assert_eq!(parse_offset("0x0"), Ok(0));
    assert_eq!(parse_offset("0x1F"), Ok(31));
    assert_eq!(parse_offset("0x7c00"), Ok(0x7C00));
    assert_eq!(parse_offset("0x0x"), Err(OffsetError::InvalidDigit));
}

#[test]
fn prefix_alone_is_no_number() {
    assert_eq!(parse_offset("0x"), Err(OffsetError::InvalidDigit));
    assert_eq!(parse_offset("x"), Err(OffsetError::InvalidDigit));
    assert_eq!(parse_offset("0X10"), Err(OffsetError::InvalidDigit));
}

#[test]
fn empty_text() {
    assert_eq!(parse_offset(""), Err(OffsetError::Empty));
}

#[test]
fn invalid_digits() {
    for src in ["g", "12g4", " 12", "12 ", "1_000", "-1", "-", "+", "0x-1", "1.5", "0xzz", "é", "1é"] {
        assert_eq!(parse_offset(src), Err(OffsetError::InvalidDigit), "{:?}", src);
    }
}

#[test]
fn leading_plus_is_a_sign() {
    assert_eq!(parse_offset("+ff"), Ok(255));
    assert_eq!(parse_offset("0x+ff"), Ok(255));
    assert_eq!(parse_offset("++ff"), Err(OffsetError::InvalidDigit));
    assert_eq!(parse_offset("+0xff"), Err(OffsetError::InvalidDigit));
}

#[test]
fn sixty_four_bits_fit_and_no_more() {
    assert_eq!(parse_offset("ffffffffffffffff"), Ok(u64::MAX));
    assert_eq!(parse_offset("0xFFFFFFFFFFFFFFFF"), Ok(u64::MAX));
    assert_eq!(parse_offset("10000000000000000"), Err(OffsetError::Overflow));
    assert_eq!(parse_offset("0x10000000000000000"), Err(OffsetError::Overflow));
    assert_eq!(parse_offset("00000000000000000000ff"), Ok(255));
    assert_eq!(parse_offset("fffffffffffffffff"), Err(OffsetError::Overflow));
}

#[test]
fn first_fault_from_the_left_decides() {
    assert_eq!(parse_offset("fffffffffffffffffg"), Err(OffsetError::Overflow));
    assert_eq!(parse_offset("ffffffffffffffffg"), Err(OffsetError::InvalidDigit));
    assert_eq!(parse_offset("gfffffffffffffffff"), Err(OffsetError::InvalidDigit));
}

#[test]
fn bytes_and_text_agree() {
    for src in ["", "0", "0x", "0x10", "+a", "zz", "ffffffffffffffff", "10000000000000000"] {
        assert_eq!(parse_offset_bytes(src.as_bytes()), parse_offset(src));
    }
    assert_eq!(parse_hex_bytes(b"0x10"), Err(OffsetError::InvalidDigit));
    assert_eq!(parse_hex_bytes(b"10"), Ok(16));
    assert_eq!(parse_offset_bytes(&[0x31, 0xFF]), Err(OffsetError::InvalidDigit));
}

#[test]
fn agrees_with_std_radix_parsing() {
    let alphabet = ["0", "1", "9", "a", "f", "A", "F", "g", "x", "+", "-", " ", "_", "0x", "ffffffff"];
    let mut inputs: Vec<String> = vec![String::new()];
    for a in alphabet {
        inputs.push(a.to_string());
        for b in alphabet {
            inputs.push(format!("{}{}", a, b));
            for c in alphabet {
                inputs.push(format!("{}{}{}", a, b, c));
                inputs.push(format!("{}{}{}{}", a, b, "ffffffff", c));
            }
        }
    }
    assert!(inputs.len() > 5000);
    for src in inputs {
        assert_eq!(parse_offset(&src), with_std(&src), "{:?}", src);
    }
}
