use xrayctl::text::{
    chars_of, decimal, parse_u32, split_whitespace, starts_with, str_eq, trim, trim_start_matches,
};

#[test]
fn trimming_matches_std() {
    for s in ["", "  ", " a b ", "\t\n x\u{a0}", "\u{85}y\u{1680}", "no-space", "\u{200b}z"] {
        assert_eq!(trim(s), s.trim());
    }
}

#[test]
fn splitting_matches_std() {
    for s in ["", "   ", "a", " a  b\tc\n", "one\u{2003}two", "x  "] {
        let ours: Vec<&str> = split_whitespace(s);
        let std: Vec<&str> = s.split_whitespace().collect();
        assert_eq!(ours, std);
    }
}

#[test]
fn prefixes() {
    assert!(starts_with("abc", "ab"));
    assert!(starts_with("abc", ""));
    assert!(!starts_with("ab", "abc"));
    assert_eq!(trim_start_matches("ababc", "ab"), "c");
    assert_eq!(trim_start_matches("ab", "ab"), "");
    assert_eq!(trim_start_matches("xab", "ab"), "xab");
}

#[test]
fn equality_and_chars() {
    assert!(str_eq("héllo", "héllo"));
    assert!(!str_eq("a", "ab"));
    assert!(!str_eq("ab", "ac"));
    assert_eq!(chars_of("é⬣"), vec!['é', '⬣']);
}

#[test]
fn decimal_numbers() {
    assert_eq!(decimal(0), "0");
    assert_eq!(decimal(9), "9");
    assert_eq!(decimal(10), "10");
    assert_eq!(decimal(4294967295), "4294967295");
    assert_eq!(parse_u32("4294967295"), Some(u32::MAX));
    assert_eq!(parse_u32(" 1"), None);
    assert_eq!(parse_u32("1a"), None);
}

#[test]
fn empty_pattern_trims_nothing() {
    assert_eq!(trim_start_matches("abc", ""), "abc".trim_start_matches(""));
    assert_eq!(trim_start_matches("", ""), "");
}
