use cups_api::text::{
    concat_text, contains_text, decimal_text, lines_of, parse_unsigned_text, signed_decimal_text,
    split_text, starts_with_text, trimmed,
};

#[test]
fn trim_removes_unicode_white_space() {
    assert_eq!(trimmed("\u{3000} CUPS 2.4 \t\n"), "CUPS 2.4");
    assert_eq!(trimmed("   "), "");
    assert_eq!(trimmed("a b"), "a b");
    assert_eq!(trimmed("\u{85}x\u{a0}"), "x");
}

#[test]
fn trim_is_idempotent_on_examples() {
    for s in ["  a  ", "\n\tb c\r\n", "", " "] {
        let once = trimmed(s);
        assert_eq!(trimmed(&once), once);
        assert_eq!(once, s.trim());
    }
}

#[test]
fn lines_follow_str_lines() {
    for s in ["a\r\nb\n\nc\n", "", "\n", "x", "a\rb\n", "a\n\r\n", "last\r"] {
        let expected: Vec<String> = s.lines().map(|l| l.to_string()).collect();
        assert_eq!(lines_of(s), expected, "lines of {:?}", s);
    }
    assert_eq!(lines_of("a\r\nb\n\nc\n"), vec!["a", "b", "", "c"]);
}

#[test]
fn split_keeps_empty_pieces() {
    assert_eq!(split_text("a,,b,", ','), vec!["a", "", "b", ""]);
    assert_eq!(split_text("", ','), vec![""]);
    assert_eq!(split_text("none", ','), vec!["none"]);
}

#[test]
fn contains_and_starts_with() {
    assert!(contains_text("scheduler is running", "is running"));
    assert!(!contains_text("scheduler is not running", "is running2"));
    assert!(contains_text("abc", ""));
    assert!(!contains_text("ab", "abc"));
    assert!(starts_with_text("Samsung-12 Samsung 1024", "Samsung"));
    assert!(!starts_with_text("HP-3", "Samsung"));
    assert!(starts_with_text("anything", ""));
}

#[test]
fn parse_follows_str_parse() {
    assert_eq!(parse_unsigned_text("42", u64::MAX), Some(42));
    assert_eq!(parse_unsigned_text("+7", u64::MAX), Some(7));
    assert_eq!(parse_unsigned_text("007", u64::MAX), Some(7));
    assert_eq!(parse_unsigned_text("", u64::MAX), None);
    assert_eq!(parse_unsigned_text("+", u64::MAX), None);
    assert_eq!(parse_unsigned_text("-1", u64::MAX), None);
    assert_eq!(parse_unsigned_text("4 2", u64::MAX), None);
    assert_eq!(parse_unsigned_text("18446744073709551615", u64::MAX), Some(u64::MAX));
    assert_eq!(parse_unsigned_text("18446744073709551616", u64::MAX), None);
    assert_eq!(parse_unsigned_text("65535", 65535), Some(65535));
    assert_eq!(parse_unsigned_text("65536", 65535), None);
    for s in ["1", "+1", "-1", "", "99999", "1883", " 1", "0x10"] {
        assert_eq!(parse_unsigned_text(s, 65535).map(|v| v as u16), s.parse::<u16>().ok(), "{:?}", s);
    }
}

#[test]
fn decimal_writes_numbers() {
    assert_eq!(decimal_text(0), "0");
    assert_eq!(decimal_text(1883), "1883");
    assert_eq!(decimal_text(u64::MAX), u64::MAX.to_string());
    assert_eq!(signed_decimal_text(-1), "-1");
    assert_eq!(signed_decimal_text(i32::MIN), i32::MIN.to_string());
    assert_eq!(signed_decimal_text(137), "137");
}

#[test]
fn decimal_parses_back() {
    for n in [0u64, 9, 10, 8000, 65535, u64::MAX] {
        assert_eq!(parse_unsigned_text(&decimal_text(n), u64::MAX), Some(n));
    }
}

#[test]
fn concat_joins() {
    assert_eq!(concat_text("CUPS ", "2.4.7"), "CUPS 2.4.7");
    assert_eq!(concat_text("", ""), "");
}

#[test]
fn white_space_is_unicode_white_space() {
    for c in (0u32..=0x10FFFF).filter_map(char::from_u32) {
        let s = c.to_string();
        assert_eq!(trimmed(&s).is_empty(), c.is_whitespace(), "{:?}", c);
    }
}

#[test]
fn contains_and_starts_with_match_std() {
    let hay = ["", "a", "abc", "abcabc", "printer is running", "ééé"];
    let pats = ["", "a", "bc", "abcd", "is running", "é"];
    for h in hay {
        for p in pats {
            assert_eq!(contains_text(h, p), h.contains(p), "{:?} {:?}", h, p);
            assert_eq!(starts_with_text(h, p), h.starts_with(p), "{:?} {:?}", h, p);
        }
    }
}
