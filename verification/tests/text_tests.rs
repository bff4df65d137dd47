use bbox::text::{parse_u64, path_join, split_char_str, trim_end_char_str, u64_to_decimal, IntErrorKind};

#[test]
fn decimal_rendering() {
    assert_eq!(u64_to_decimal(0), "0");
    assert_eq!(u64_to_decimal(7), "7");
    assert_eq!(u64_to_decimal(12345), "12345");
    assert_eq!(u64_to_decimal(u64::MAX), u64::MAX.to_string());
}

#[test]
fn path_joining_follows_pathbuf_push() {
    assert_eq!(path_join("qwc2", "index.html"), "qwc2/index.html");
    assert_eq!(path_join("tiles/", "3"), "tiles/3");
    assert_eq!(path_join("", "3"), "3");
    assert_eq!(path_join("tiles", "/abs"), "/abs");
    let mut p = std::path::PathBuf::from("a/b");
    p.push("c");
    assert_eq!(path_join("a/b", "c"), p.to_string_lossy());
}

#[test]
fn trailing_slashes_are_trimmed() {
    assert_eq!(trim_end_char_str("http://x/api///", '/'), "http://x/api");
    assert_eq!(trim_end_char_str("///", '/'), "");
    assert_eq!(trim_end_char_str("abc", '/'), "abc");
}

#[test]
fn splitting_keeps_empty_pieces() {
    assert_eq!(split_char_str("a,,b", ','), vec!["a".to_string(), "".to_string(), "b".to_string()]);
    assert_eq!(split_char_str("", ','), vec!["".to_string()]);
    assert_eq!(split_char_str("one", ','), vec!["one".to_string()]);
    assert_eq!(split_char_str("a,", ','), vec!["a".to_string(), "".to_string()]);
}

#[test]
fn u64_parsing_matches_std() {
    for s in ["42", "+7", "0", "007", "18446744073709551615"] {
        assert_eq!(parse_u64(s), Ok(s.parse::<u64>().unwrap()));
    }
    assert_eq!(parse_u64(""), Err(IntErrorKind::Empty));
    assert_eq!(parse_u64("+"), Err(IntErrorKind::InvalidDigit));
    assert_eq!(parse_u64("-1"), Err(IntErrorKind::InvalidDigit));
    assert_eq!(parse_u64("1a"), Err(IntErrorKind::InvalidDigit));
    assert_eq!(parse_u64(" 1"), Err(IntErrorKind::InvalidDigit));
    assert_eq!(parse_u64("18446744073709551616"), Err(IntErrorKind::PosOverflow));
    for s in ["", "+", "-1", "1a", "18446744073709551616"] {
        assert!(s.parse::<u64>().is_err());
    }
}
