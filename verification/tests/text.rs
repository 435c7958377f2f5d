use booklet_imposition::text::{
    chars_of, contains, decimal, is_whitespace, parse_usize, trim, zero_padded_decimal,
    IntErrorKind,
};

#[test]
fn decimal_formatting() {
    assert_eq!(decimal(0), "0");
    assert_eq!(decimal(9), "9");
    assert_eq!(decimal(10), "10");
    assert_eq!(decimal(1234567), "1234567");
    assert_eq!(decimal(usize::MAX), usize::MAX.to_string());
}

#[test]
fn zero_padded_formatting() {
    assert_eq!(zero_padded_decimal(1, 3), "001");
    assert_eq!(zero_padded_decimal(42, 3), "042");
    assert_eq!(zero_padded_decimal(1000, 3), "1000");
    assert_eq!(zero_padded_decimal(7, 0), "7");
}

#[test]
fn whitespace_matches_std() {
    for code in 0u32..0x3100 {
        if let Some(c) = char::from_u32(code) {
            assert_eq!(is_whitespace(c), c.is_whitespace(), "code {code:#x}");
        }
    }
}

#[test]
fn trim_matches_std() {
    for s in ["", "  ", "42\n", "\t 7 \r\n", "a b", "\u{3000}x\u{85}", " \u{a0}"] {
        assert_eq!(trim(s), s.trim());
    }
}

#[test]
fn parse_matches_std() {
    for s in ["", "+", "-", "0", "+0", "007", "-0", "12x", "x12", "18446744073709551615",
        "18446744073709551616", "99999999999999999999x", "+-1", " 1", "٣"]
    {
        let expected = s.parse::<usize>().map_err(|e| match e.kind() {
            std::num::IntErrorKind::Empty => IntErrorKind::Empty,
            std::num::IntErrorKind::InvalidDigit => IntErrorKind::InvalidDigit,
            std::num::IntErrorKind::PosOverflow => IntErrorKind::PosOverflow,
            _ => unreachable!(),
        });
        assert_eq!(parse_usize(s), expected, "input {s:?}");
    }
}

#[test]
fn decimal_parses_back() {
    for n in [0usize, 5, 10, 99, 100, 65535, usize::MAX] {
        let text = decimal(n);
        let line = format!("{text}\n");
        assert_eq!(parse_usize(&trim(&line)), Ok(n));
    }
}

#[test]
fn substring_search() {
    let hay = chars_of("usage: pdfbook2 --outfile FILE");
    assert!(contains(&hay, &chars_of("--outfile")));
    assert!(contains(&hay, &chars_of("")));
    assert!(!contains(&hay, &chars_of("--out-file")));
    assert!(!contains(&chars_of("ab"), &chars_of("abc")));
}
