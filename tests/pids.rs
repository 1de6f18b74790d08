use rogcat::pids::{is_whitespace, parse_pid, parse_pids};
use std::collections::HashSet;

fn set_of(v: &[u32]) -> HashSet<u32> {
    v.iter().copied().collect()
}

#[test]
fn query_output_skips_malformed_words() {
    assert_eq!(parse_pids("42 91 notanumber 7"), set_of(&[42, 91, 7]));
}

#[test]
fn query_output_empty() {
    assert_eq!(parse_pids(""), set_of(&[]));
    assert_eq!(parse_pids(" \t\n "), set_of(&[]));
}

#[test]
fn query_output_mixed_whitespace() {
    assert_eq!(parse_pids("\n1\t2\r\n3  4\u{3000}5\u{a0}6\n"), set_of(&[1, 2, 3, 4, 5, 6]));
}

#[test]
fn query_output_duplicates_and_bounds() {
    assert_eq!(
        parse_pids("9 9 4294967295 4294967296 -3 +8 x9"),
        set_of(&[9, 4294967295, 8])
    );
}

#[test]
fn query_output_single_word_without_separator() {
    assert_eq!(parse_pids("1234"), set_of(&[1234]));
    assert_eq!(parse_pids("12a4"), set_of(&[]));
}

#[test]
fn pid_field_parsing() {
    assert_eq!(parse_pid("200"), Some(200));
    assert_eq!(parse_pid("007"), Some(7));
    assert_eq!(parse_pid("+15"), Some(15));
    assert_eq!(parse_pid("0"), Some(0));
    assert_eq!(parse_pid("4294967295"), Some(u32::MAX));
    assert_eq!(parse_pid("4294967296"), None);
    assert_eq!(parse_pid("99999999999999999999"), None);
    assert_eq!(parse_pid(""), None);
    assert_eq!(parse_pid("+"), None);
    assert_eq!(parse_pid("-1"), None);
    assert_eq!(parse_pid(" 1"), None);
    assert_eq!(parse_pid("1 "), None);
    assert_eq!(parse_pid("abc"), None);
}

#[test]
fn pid_field_parsing_agrees_with_std() {
    for s in ["1", "+1", "++1", "-0", "00", "4294967295", "4294967296", "", "x", "1_0"] {
        assert_eq!(parse_pid(s), s.parse::<u32>().ok(), "{}", s);
    }
}

#[test]
fn whitespace_agrees_with_std() {
    for u in 0u32..=0x10FFFF {
        if let Some(c) = char::from_u32(u) {
            assert_eq!(is_whitespace(c), c.is_whitespace(), "{:x}", u);
        }
    }
}
