use std::num::IntErrorKind;
use x8616_cycles::number::{parse_hex, parse_num, DigitError, NumberForm};

/// The error kind that the standard library gives for the same digits.
fn kind(s: &str, radix: u32) -> Option<DigitError> {
    match u64::from_str_radix(s, radix) {
        Ok(_) => None,
        Err(e) => match e.kind() {
            IntErrorKind::Empty => Some(DigitError::Empty),
            IntErrorKind::InvalidDigit => Some(DigitError::InvalidDigit),
            _ => Some(DigitError::PosOverflow),
        },
    }
}

#[test]
fn hex_and_decimal() {
    assert_eq!(parse_num("0x7E00").ok(), Some(0x7e00));
    assert_eq!(parse_num("0X7e00").ok(), Some(0x7e00));
    assert_eq!(parse_num("100").ok(), Some(100));
    assert_eq!(parse_num("7E00").ok(), Some(0x7e00));
    assert_eq!(parse_num("+5").ok(), Some(5));
    assert_eq!(parse_num("0x+5").ok(), Some(5));
    assert_eq!(parse_num("18446744073709551615").ok(), Some(u64::MAX));
    assert_eq!(parse_num("0xffffffffffffffff").ok(), Some(u64::MAX));
}

#[test]
fn hex_only() {
    assert_eq!(parse_hex("1000").ok(), Some(0x1000));
    assert_eq!(parse_hex(" 0x1000 ").ok(), Some(0x1000));
    assert_eq!(parse_hex("0Xff").ok(), Some(0xff));
    assert_eq!(parse_hex("+fF").ok(), Some(0xff));
    assert_eq!(parse_hex("0x").unwrap_err().message(), "bad hex: 0x");
    let e = parse_hex("xyz").unwrap_err();
    assert_eq!((e.form, e.cause), (NumberForm::Any, DigitError::InvalidDigit));
    assert_eq!(parse_hex("").unwrap_err().cause, DigitError::Empty);
    assert_eq!(parse_hex("10000000000000000").unwrap_err().cause, DigitError::PosOverflow);
}

#[test]
fn white_space_around_a_number() {
    assert_eq!(parse_num("  \t0x10\n").ok(), Some(16));
    assert_eq!(parse_num("\u{3000}42\u{a0}").ok(), Some(42));
    let e = parse_num("  zz  ").unwrap_err();
    assert_eq!(e.message(), "bad number: zz");
}

#[test]
fn errors_of_numbers() {
    let e = parse_num("0x").unwrap_err();
    assert_eq!(e.form, NumberForm::Hex);
    assert_eq!(e.cause, DigitError::Empty);
    assert_eq!(e.message(), "bad hex: 0x");
    assert_eq!(e.cause_message(), "cannot parse integer from empty string");

    let e = parse_num("0x12g").unwrap_err();
    assert_eq!(e.message(), "bad hex: 0x12g");
    assert_eq!(e.cause_message(), "invalid digit found in string");

    let e = parse_num("99999999999999999999").unwrap_err();
    assert_eq!(e.form, NumberForm::Any);
    assert_eq!(e.text, "99999999999999999999");
    assert_eq!(e.cause, DigitError::PosOverflow);
    assert_eq!(e.cause_message(), "number too large to fit in target type");

    assert_eq!(parse_num("").unwrap_err().cause, DigitError::Empty);
    assert_eq!(parse_num("+").unwrap_err().cause, DigitError::InvalidDigit);
    assert_eq!(parse_num("-1").unwrap_err().cause, DigitError::InvalidDigit);
}

#[test]
fn digits_agree_with_the_standard_library() {
    let texts = [
        "", "+", "-", "0", "9", "a", "F", "g", "+7", "++7", "1_000", "ffffffffffffffff",
        "10000000000000000", "0000000000000000000001", "fffffffffffffffffz", "zfffffffffffffffff",
        "ffffffffffffffffz", "100000000000000000z", "é", "12é",
    ];
    for t in texts {
        let text = format!("0x{t}");
        match parse_num(&text) {
            Ok(v) => assert_eq!(u64::from_str_radix(t, 16), Ok(v), "{t}"),
            Err(e) => assert_eq!(Some(e.cause), kind(t, 16), "{t}"),
        }
    }
}

#[test]
fn decimal_never_turns_hexadecimal() {
    // Decimal digits that do not fit: as hexadecimal digits they fit even less.
    let e = parse_num("18446744073709551616").unwrap_err();
    assert_eq!(e.cause, DigitError::PosOverflow);
    assert_eq!(parse_num("10").ok(), Some(10));
}

#[test]
fn white_space_is_what_the_standard_library_trims() {
    for n in 0..=0x10ffff_u32 {
        if let Some(c) = char::from_u32(n) {
            if c.is_whitespace() {
                assert_eq!(parse_num(&format!("{c}7{c}")).ok(), Some(7), "{n:x}");
            } else if n < 0x3100 && !c.is_ascii_hexdigit() && c != '+' {
                assert!(parse_num(&format!("{c}7")).is_err(), "{n:x}");
            }
        }
    }
}
