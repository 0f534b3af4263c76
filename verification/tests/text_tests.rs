use dao_querying::text::{
    decimal_string, parse_i32, parse_u128, parse_u32, replace_text, text_eq, NumberError,
};

fn std_kind(e: &std::num::ParseIntError) -> NumberError {
    match e.kind() {
        std::num::IntErrorKind::Empty => NumberError::Empty,
        std::num::IntErrorKind::InvalidDigit => NumberError::InvalidDigit,
        std::num::IntErrorKind::PosOverflow => NumberError::PosOverflow,
        std::num::IntErrorKind::NegOverflow => NumberError::NegOverflow,
        _ => panic!("unexpected kind"),
    }
}

const SAMPLES: &[&str] = &[
    "", "+", "-", "0", "00", "007", "+7", "-7", "-0", "+-1", "1+", " 1", "1 ", "12a", "a12",
    "4294967295", "4294967296", "+4294967295", "99999999999x", "2147483647", "2147483648",
    "-2147483648", "-2147483649", "340282366920938463463374607431768211455",
    "340282366920938463463374607431768211456", "١٢", "12\u{e9}", "--1", "++1", "1.5",
];

#[test]
fn parse_u32_agrees_with_std() {
    for s in SAMPLES {
        let expected = s.parse::<u32>().map_err(|e| std_kind(&e));
        assert_eq!(parse_u32(s), expected, "input {:?}", s);
    }
}

#[test]
fn parse_i32_agrees_with_std() {
    for s in SAMPLES {
        let expected = s.parse::<i32>().map_err(|e| std_kind(&e));
        assert_eq!(parse_i32(s), expected, "input {:?}", s);
    }
}

#[test]
fn parse_u128_agrees_with_std() {
    for s in SAMPLES {
        let expected = s.parse::<u128>().map_err(|e| std_kind(&e));
        assert_eq!(parse_u128(s), expected, "input {:?}", s);
    }
}

#[test]
fn parse_exact_values() {
    assert_eq!(parse_u32("1700000000"), Ok(1_700_000_000));
    assert_eq!(parse_u32(""), Err(NumberError::Empty));
    assert_eq!(parse_u32("+"), Err(NumberError::InvalidDigit));
    assert_eq!(parse_u32("-5"), Err(NumberError::InvalidDigit));
    assert_eq!(parse_u32("4294967296"), Err(NumberError::PosOverflow));
    assert_eq!(parse_i32("-2147483648"), Ok(i32::MIN));
    assert_eq!(parse_i32("-2147483649"), Err(NumberError::NegOverflow));
    assert_eq!(parse_u128("1000000000000000000"), Ok(1_000_000_000_000_000_000));
}

#[test]
fn decimal_string_agrees_with_std() {
    for n in [0u128, 1, 9, 10, 99, 100, 12345, u32::MAX as u128, u64::MAX as u128, u128::MAX] {
        assert_eq!(decimal_string(n), n.to_string());
    }
}

#[test]
fn written_numbers_read_back() {
    for n in [0u32, 7, 10, 4_000_000, u32::MAX] {
        assert_eq!(parse_u32(&decimal_string(n as u128)), Ok(n));
    }
    for n in [0u128, 42, u128::MAX] {
        assert_eq!(parse_u128(&decimal_string(n)), Ok(n));
    }
}

#[test]
fn replace_text_agrees_with_std() {
    let cases: &[(&str, &str, &str)] = &[
        ("a{x}b{x}", "{x}", "Q"),
        ("aaaa", "aa", "b"),
        ("aaa", "aa", "b"),
        ("", "x", "y"),
        ("no match", "zz", "y"),
        ("line\nbreaks\n\n", "\n", ""),
        ("\u{e9}t\u{e9}", "t", "TT"),
    ];
    for (s, p, r) in cases {
        assert_eq!(replace_text(s, p, r), s.replace(p, r));
    }
}

#[test]
fn text_eq_compares_characters() {
    assert!(text_eq("onchain", "onchain"));
    assert!(!text_eq("onchain", "onchai"));
    assert!(!text_eq("onchain", "Onchain"));
    assert!(text_eq("", ""));
}
