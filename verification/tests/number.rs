use std::num::IntErrorKind;

use fnwalk::framing::find_line_end;
use fnwalk::number::{parse_i16, parse_u32, push_decimal, IntFault};

fn fault_of(kind: &IntErrorKind) -> IntFault {
    match kind {
        IntErrorKind::Empty => IntFault::Empty,
        IntErrorKind::InvalidDigit => IntFault::InvalidDigit,
        IntErrorKind::PosOverflow => IntFault::PosOverflow,
        IntErrorKind::NegOverflow => IntFault::NegOverflow,
        other => panic!("{:?}", other),
    }
}

fn compare(text: &str) {
    let expected = text.parse::<u32>().map_err(|e| fault_of(e.kind()));
    assert_eq!(parse_u32(text.as_bytes()), expected, "{:?}", text);
    let expected = text.parse::<i16>().map_err(|e| fault_of(e.kind()));
    assert_eq!(parse_i16(text.as_bytes()), expected, "{:?}", text);
}

/// Every text of up to six characters over an alphabet reads as `str::parse` reads it.
#[test]
fn numbers_read_as_the_standard_library_reads_them() {
    let alphabet = ["0", "2", "3", "9", "+", "-", "x", "\u{e9}"];
    let mut texts = vec![String::new()];
    for _ in 0..=6 {
        let mut longer = Vec::new();
        for text in &texts {
            compare(text);
            if text.chars().count() < 6 {
                for c in alphabet {
                    longer.push(format!("{}{}", text, c));
                }
            }
        }
        texts = longer;
    }
}

#[test]
fn large_numbers_read_as_the_standard_library_reads_them() {
    for text in [
        "4294967295",
        "4294967296",
        "+4294967295",
        "00000000004294967295",
        "42949672960",
        "42949672950x",
        "4294967295x",
        "-4294967296",
        "-0",
        "-32768",
        "-32769x",
        "32767",
        "32768",
        "3276800000x",
    ] {
        compare(text);
    }
}

#[test]
fn decimal_is_written_as_the_standard_library_writes_it() {
    for n in [0, 9, 10, 11, 99, 100, 1234567890, u64::MAX] {
        let mut out = String::from("n=");
        push_decimal(&mut out, n);
        assert_eq!(out, format!("n={}", n));
    }
}

#[test]
fn first_carriage_return_ends_the_line() {
    assert_eq!(find_line_end(b""), None);
    assert_eq!(find_line_end(b"ab\n"), None);
    assert_eq!(find_line_end(b"\r"), Some(0));
    assert_eq!(find_line_end(b"ab\rc\r"), Some(2));
}
