use cowi::number::{parse, to_decimal};

#[test]
fn to_decimal_writes_digits() {
    assert_eq!(to_decimal(0), b"0");
    assert_eq!(to_decimal(3), b"3");
    assert_eq!(to_decimal(9), b"9");
    assert_eq!(to_decimal(10), b"10");
    assert_eq!(to_decimal(12345), b"12345");
    assert_eq!(to_decimal(1000000), b"1000000");
    assert_eq!(to_decimal(2147483647), b"2147483647");
}

#[test]
fn to_decimal_writes_a_sign_before_negative_numbers() {
    assert_eq!(to_decimal(-1), b"-1");
    assert_eq!(to_decimal(-10), b"-10");
    assert_eq!(to_decimal(-2147483647), b"-2147483647");
    assert_eq!(to_decimal(-2147483648), b"-2147483648");
}

#[test]
fn to_decimal_writes_what_display_writes() {
    let mut value: i32 = 1;
    for _ in 0..5000 {
        assert_eq!(to_decimal(value), value.to_string().into_bytes());
        value = value.wrapping_mul(1103515245).wrapping_add(12345);
    }
    for value in -1000..=1000 {
        assert_eq!(to_decimal(value), value.to_string().into_bytes());
    }
}

#[test]
fn parse_reads_numbers() {
    assert_eq!(parse("0"), Some(0));
    assert_eq!(parse("7"), Some(7));
    assert_eq!(parse("42"), Some(42));
    assert_eq!(parse("2147483647"), Some(i32::MAX));
    assert_eq!(parse("-2147483648"), Some(i32::MIN));
    assert_eq!(parse("-1"), Some(-1));
}

#[test]
fn parse_takes_a_sign() {
    assert_eq!(parse("+5"), Some(5));
    assert_eq!(parse("-5"), Some(-5));
    assert_eq!(parse("-0"), Some(0));
    assert_eq!(parse("+0"), Some(0));
    assert_eq!(parse("+2147483647"), Some(i32::MAX));
    assert_eq!(parse("-"), None);
    assert_eq!(parse("+"), None);
    assert_eq!(parse("+-5"), None);
    assert_eq!(parse("--5"), None);
    assert_eq!(parse("5-"), None);
}

#[test]
fn parse_takes_zeros_in_front() {
    assert_eq!(parse("007"), Some(7));
    assert_eq!(parse("-007"), Some(-7));
    assert_eq!(parse("00000000000000000000000000000000000000001"), Some(1));
    assert_eq!(parse("0000000000000000000002147483647"), Some(i32::MAX));
    assert_eq!(parse("-0000000000000000000002147483648"), Some(i32::MIN));
}

#[test]
fn parse_refuses_numbers_that_do_not_fit() {
    assert_eq!(parse("2147483648"), None);
    assert_eq!(parse("-2147483649"), None);
    assert_eq!(parse("+2147483648"), None);
    assert_eq!(parse("4294967296"), None);
    assert_eq!(parse("9999999999"), None);
    assert_eq!(parse("99999999999999999999999999999999999999999999"), None);
    assert_eq!(parse("-99999999999999999999999999999999999999999999"), None);
    assert_eq!(parse("18446744073709551617"), None);
}

#[test]
fn parse_leaves_out_white_space_at_the_end() {
    assert_eq!(parse("12\n"), Some(12));
    assert_eq!(parse("12\r\n"), Some(12));
    assert_eq!(parse("12 \t \n"), Some(12));
    assert_eq!(parse("12\u{a0}"), Some(12));
    assert_eq!(parse("12\u{3000}\u{2028}"), Some(12));
    assert_eq!(parse("-12\n\n\n"), Some(-12));
}

#[test]
fn parse_refuses_white_space_elsewhere() {
    assert_eq!(parse(" 12"), None);
    assert_eq!(parse("\n12"), None);
    assert_eq!(parse("1 2"), None);
    assert_eq!(parse("- 12"), None);
    assert_eq!(parse("1\n2\n"), None);
}

#[test]
fn parse_refuses_the_empty_line() {
    assert_eq!(parse(""), None);
    assert_eq!(parse("\n"), None);
    assert_eq!(parse("   "), None);
    assert_eq!(parse("\r\n"), None);
}

#[test]
fn parse_refuses_what_is_no_digit() {
    assert_eq!(parse("x"), None);
    assert_eq!(parse("12x"), None);
    assert_eq!(parse("x12"), None);
    assert_eq!(parse("1.5"), None);
    assert_eq!(parse("1e3"), None);
    assert_eq!(parse("0x10"), None);
    assert_eq!(parse("1_000"), None);
    assert_eq!(parse("/"), None);
    assert_eq!(parse(":"), None);
    assert_eq!(parse("\u{ff11}\u{ff12}"), None);
    assert_eq!(parse("\u{661}"), None);
    assert_eq!(parse("12\u{200b}"), None);
    assert_eq!(parse("\u{2212}5"), None);
}

#[test]
fn parse_reads_what_the_standard_library_reads() {
    let lines = [
        "", "0", "-0", "+0", "1", "-1", "+1", "12", "012", "2147483647", "2147483648",
        "-2147483648", "-2147483649", "12\n", "12\r\n", " 12\n", "12 34", "abc", "-", "+", "1-",
        "--1", "++1", "1.0", "\t", "5\u{85}", "5\u{1680}", "5\u{180e}", "5\u{feff}", "٣",
        "99999999999", "-99999999999", "00000000000000000000", "3\u{2003}\u{2009}\n",
    ];
    for line in lines {
        assert_eq!(parse(line), line.trim_end().parse::<i32>().ok(), "{line:?}");
    }
}

#[test]
fn parse_knows_white_space_as_the_standard_library_does() {
    for point in 0..=0x10ffffu32 {
        if let Some(c) = char::from_u32(point) {
            let line = format!("7{c}");
            assert_eq!(parse(&line), line.trim_end().parse::<i32>().ok(), "{point:x}");
        }
    }
}

#[test]
fn parse_reads_back_what_to_decimal_wrote() {
    let mut value: i32 = 7;
    for _ in 0..5000 {
        let text = String::from_utf8(to_decimal(value)).unwrap();
        assert_eq!(parse(&text), Some(value));
        value = value.wrapping_mul(1664525).wrapping_add(1013904223);
    }
    for value in [0, 1, -1, i32::MAX, i32::MIN, i32::MAX - 1, i32::MIN + 1] {
        let text = String::from_utf8(to_decimal(value)).unwrap();
        assert_eq!(parse(&text), Some(value));
    }
}
