use comandas::number::{
    i32_from_str, i32_to_string, i64_to_string, u32_from_str, u32_to_string, u64_from_str, u64_to_string,
    usize_from_str, usize_to_string, IntErrorKind,
};
use comandas::split::{split_chars, Separator};
use comandas::text::{
    ascii_alphanumeric, ascii_digit, find_chars, from_chars, replace_chars, str_blank, to_chars, trim_chars,
    whitespace,
};

fn kind_of(e: &std::num::ParseIntError) -> IntErrorKind {
    match e.kind() {
        std::num::IntErrorKind::Empty => IntErrorKind::Empty,
        std::num::IntErrorKind::InvalidDigit => IntErrorKind::InvalidDigit,
        std::num::IntErrorKind::PosOverflow => IntErrorKind::PosOverflow,
        std::num::IntErrorKind::NegOverflow => IntErrorKind::NegOverflow,
        _ => panic!("unexpected error kind"),
    }
}

const SAMPLES: [&str; 24] = [
    "", "+", "-", "0", "7", "+12", "-12", "007", "12a", " 1", "1 ", "4294967295", "4294967296",
    "2147483647", "2147483648", "-2147483648", "-2147483649", "18446744073709551615",
    "18446744073709551616", "٣", "1_000", "--1", "+-1", "99999999999999999999999",
];

#[test]
fn u32_parsing_matches_std() {
    for s in SAMPLES {
        match (u32_from_str(s), s.parse::<u32>()) {
            (Ok(a), Ok(b)) => assert_eq!(a, b, "{s}"),
            (Err(a), Err(b)) => assert_eq!(a, kind_of(&b), "{s}"),
            (a, b) => panic!("{s}: {a:?} vs {b:?}"),
        }
    }
}

#[test]
fn u64_and_usize_parsing_match_std() {
    for s in SAMPLES {
        match (u64_from_str(s), s.parse::<u64>()) {
            (Ok(a), Ok(b)) => assert_eq!(a, b, "{s}"),
            (Err(a), Err(b)) => assert_eq!(a, kind_of(&b), "{s}"),
            (a, b) => panic!("{s}: {a:?} vs {b:?}"),
        }
        match (usize_from_str(s), s.parse::<usize>()) {
            (Ok(a), Ok(b)) => assert_eq!(a, b, "{s}"),
            (Err(a), Err(b)) => assert_eq!(a, kind_of(&b), "{s}"),
            (a, b) => panic!("{s}: {a:?} vs {b:?}"),
        }
    }
}

#[test]
fn i32_parsing_matches_std() {
    for s in SAMPLES {
        match (i32_from_str(s), s.parse::<i32>()) {
            (Ok(a), Ok(b)) => assert_eq!(a, b, "{s}"),
            (Err(a), Err(b)) => assert_eq!(a, kind_of(&b), "{s}"),
            (a, b) => panic!("{s}: {a:?} vs {b:?}"),
        }
    }
}

#[test]
fn error_kinds_and_messages() {
    assert_eq!(u32_from_str(""), Err(IntErrorKind::Empty));
    assert_eq!(u32_from_str("x"), Err(IntErrorKind::InvalidDigit));
    assert_eq!(u32_from_str("4294967296"), Err(IntErrorKind::PosOverflow));
    assert_eq!(i32_from_str("-2147483649"), Err(IntErrorKind::NegOverflow));
    for s in ["", "x", "4294967296"] {
        let std_message = s.parse::<u32>().unwrap_err().to_string();
        assert_eq!(u32_from_str(s).unwrap_err().message(), std_message);
    }
    let std_message = "-2147483649".parse::<i32>().unwrap_err().to_string();
    assert_eq!(IntErrorKind::NegOverflow.message(), std_message);
}

#[test]
fn number_formatting_matches_std() {
    for n in [0u64, 1, 9, 10, 99, 100, 12345, u32::MAX as u64, u64::MAX] {
        assert_eq!(u64_to_string(n), n.to_string());
    }
    for n in [0u32, 7, 42, u32::MAX] {
        assert_eq!(u32_to_string(n), n.to_string());
    }
    for n in [0usize, 15000, usize::MAX] {
        assert_eq!(usize_to_string(n), n.to_string());
    }
    for n in [0i64, -1, 17, i64::MIN, i64::MAX] {
        assert_eq!(i64_to_string(n), n.to_string());
    }
    for n in [0i32, -1, 2, i32::MIN, i32::MAX] {
        assert_eq!(i32_to_string(n), n.to_string());
    }
}

#[test]
fn text_round_trips() {
    for n in [0u32, 5, 1000, u32::MAX] {
        assert_eq!(u32_from_str(&u32_to_string(n)), Ok(n));
    }
    for n in [0i32, -5, i32::MIN, i32::MAX] {
        assert_eq!(i32_from_str(&i32_to_string(n)), Ok(n));
    }
}

#[test]
fn character_classes_match_std() {
    for code in 0u32..0x3100 {
        if let Some(c) = char::from_u32(code) {
            assert_eq!(whitespace(c), c.is_whitespace(), "{code:#x}");
            assert_eq!(ascii_digit(c), c.is_ascii_digit(), "{code:#x}");
            assert_eq!(ascii_alphanumeric(c), c.is_ascii_alphanumeric(), "{code:#x}");
        }
    }
}

#[test]
fn trimming_matches_std() {
    for s in ["", "  ", " a ", "\u{a0}x y\u{3000}", "\t\nabc", "abc\r\n", "a"] {
        let t = trim_chars(&to_chars(s));
        assert_eq!(from_chars(&t), s.trim());
        assert_eq!(str_blank(s), s.trim().is_empty());
    }
}

#[test]
fn replacing_matches_std() {
    for (s, pat, rep) in [
        ("1%2C2%2C3", "%2C", ","),
        ("a+b+c", "+", " "),
        ("aaa", "aa", "b"),
        ("%20%20", "%20", " "),
        ("nothing", "x", "y"),
        ("", "a", "b"),
    ] {
        assert_eq!(from_chars(&replace_chars(&to_chars(s), pat, rep)), s.replace(pat, rep));
    }
}

#[test]
fn finding_matches_std() {
    for (s, pat) in [("ids=1", "="), ("abc", "c"), ("abc", "d"), ("aab", "ab"), ("", "a"), ("a", "")] {
        let found = find_chars(&to_chars(s), &to_chars(pat));
        let expected = s.find(pat).map(|byte| s[..byte].chars().count());
        assert_eq!(found, expected, "{s} / {pat}");
    }
}

#[test]
fn splitting_matches_std() {
    for s in ["", "a", "a&b", "&a&", "&&", "x=1&y=2"] {
        let parts: Vec<String> = split_chars(&to_chars(s), Separator::Char('&')).iter().map(from_chars).collect();
        let expected: Vec<String> = s.split('&').map(|p| p.to_string()).collect();
        assert_eq!(parts, expected, "{s}");
    }
    let s = "1, 2;3\n4\r5\t6 ";
    let parts: Vec<String> = split_chars(&to_chars(s), Separator::List).iter().map(from_chars).collect();
    let expected: Vec<String> = s
        .split(|c| matches!(c, ',' | ';' | '\n' | '\r' | '\t' | ' '))
        .map(|p| p.to_string())
        .collect();
    assert_eq!(parts, expected);
}
