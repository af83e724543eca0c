use bowtie::decimal::{format_i32, parse_i32};
use bowtie::text::{is_whitespace, replace_str, str_ends_with, str_eq, strip_whitespace, trim_leading_slashes};

#[test]
fn parse_matches_std_on_samples() {
    let samples = [
        "0", "-0", "+0", "7", "-7", "+7", "42", "007", "-007", "2147483647", "2147483648",
        "-2147483648", "-2147483649", "99999999999999999999", "", "-", "+", "+-1", "-+1", " 1",
        "1 ", "1a", "a1", "12,3", "１", "--1", "0x10", "1_000",
    ];
    for s in samples.iter() {
        assert_eq!(parse_i32(s), s.parse::<i32>().ok(), "input {:?}", s);
    }
}

#[test]
fn parse_exact_values() {
    assert_eq!(parse_i32("-12"), Some(-12));
    assert_eq!(parse_i32("+5"), Some(5));
    assert_eq!(parse_i32("2147483648"), None);
    assert_eq!(parse_i32("-2147483648"), Some(i32::MIN));
    assert_eq!(parse_i32(""), None);
}

#[test]
fn format_matches_std() {
    let samples = [0, 1, -1, 9, 10, -10, 123456, -98765, i32::MAX, i32::MIN, 1000000000];
    for n in samples.iter() {
        assert_eq!(format_i32(*n), n.to_string());
    }
    for n in -2000..2000 {
        assert_eq!(format_i32(n), n.to_string());
    }
}

#[test]
fn format_then_parse_round_trips() {
    for n in [i32::MIN, -5000, -1, 0, 1, 77, i32::MAX].iter() {
        assert_eq!(parse_i32(&format_i32(*n)), Some(*n));
    }
}

#[test]
fn whitespace_matches_std_for_every_char() {
    for code in 0u32..=0x10FFFF {
        if let Some(c) = std::char::from_u32(code) {
            assert_eq!(is_whitespace(c), c.is_whitespace(), "char {:x}", code);
        }
    }
}

#[test]
fn strip_whitespace_removes_all_whitespace() {
    assert_eq!(strip_whitespace(" a {\n\tcolor: red; }\u{3000}"), "a{color:red;}");
    assert_eq!(strip_whitespace(""), "");
    assert_eq!(strip_whitespace("   "), "");
}

#[test]
fn trim_leading_slashes_like_std() {
    for s in ["/profile/feed", "///a/b", "a/b", "", "/", "//"].iter() {
        assert_eq!(trim_leading_slashes(s), s.trim_start_matches("/"));
    }
}

#[test]
fn replace_like_std() {
    let cases = [
        ("a\\b\\c.scss", "\\", "/"),
        ("x.scss.scss", ".scss", ""),
        ("aaaa", "aa", "b"),
        ("", "a", "b"),
        ("abc", "abcd", "z"),
        ("héllo wörld", "ö", "o"),
    ];
    for (s, p, r) in cases.iter() {
        assert_eq!(replace_str(s, p, r), s.replace(p, r));
    }
}

#[test]
fn ends_with_and_equality() {
    assert!(str_ends_with("dark.scss", ".scss"));
    assert!(!str_ends_with("scss", ".scss"));
    assert!(str_ends_with("", ""));
    assert!(str_eq("abc", "abc"));
    assert!(!str_eq("abc", "abd"));
    assert!(!str_eq("abc", "ab"));
}
