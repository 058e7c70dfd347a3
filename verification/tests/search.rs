use peroxide::bytes::{
    contains, find, find_from, first_line_with, same_bytes, starts_at, strip_cr, take_up_to,
};

#[test]
fn find_gives_the_first_of_several() {
    assert_eq!(find(b"abcabcabc", b"bc"), Some(1));
    assert_eq!(find_from(b"abcabcabc", b"bc", 2), Some(4));
    assert_eq!(find_from(b"abcabcabc", b"bc", 7), Some(7));
    assert_eq!(find_from(b"abcabcabc", b"bc", 8), None);
}

#[test]
fn find_nothing() {
    assert_eq!(find(b"abc", b"d"), None);
    assert_eq!(find(b"ab", b"abc"), None);
    assert_eq!(find(b"", b"a"), None);
    assert_eq!(find_from(b"abc", b"a", 4), None);
}

#[test]
fn empty_pattern_stands_everywhere() {
    assert_eq!(find(b"abc", b""), Some(0));
    assert_eq!(find(b"", b""), Some(0));
    assert_eq!(find_from(b"abc", b"", 3), Some(3));
    assert_eq!(find_from(b"abc", b"", 4), None);
}

#[test]
fn overlapping_prefix_does_not_hide_a_match() {
    assert_eq!(find(b"aaab", b"aab"), Some(1));
    assert_eq!(find(b"\r\n\r\r\n\r\n", b"\r\n\r\n"), Some(3));
}

#[test]
fn starts_at_and_contains() {
    assert!(starts_at(b"hello", b"ell", 1));
    assert!(!starts_at(b"hello", b"ell", 0));
    assert!(starts_at(b"hello", b"", 5));
    assert!(contains(b"hello", b"lo"));
    assert!(!contains(b"hello", b"ol"));
}

#[test]
fn pattern_that_does_not_fit_does_not_stand() {
    assert!(!starts_at(b"hello", b"lo", 4));
    assert!(!starts_at(b"hello", b"o", 5));
    assert!(!starts_at(b"hello", b"", 6));
    assert!(!starts_at(b"hello", b"hello!", 0));
    assert!(!starts_at(b"", b"a", 0));
    assert!(!starts_at(b"hello", b"h", usize::MAX));
    assert!(starts_at(b"", b"", 0));
}

#[test]
fn same_bytes_compares_whole_strings() {
    assert!(same_bytes(b"api", b"api"));
    assert!(!same_bytes(b"api", b"ap"));
    assert!(!same_bytes(b"ap", b"api"));
    assert!(!same_bytes(b"api", b"apx"));
    assert!(same_bytes(b"", b""));
}

#[test]
fn take_up_to_cuts_at_first_stop() {
    assert_eq!(take_up_to(b"name\" rest\"", b"\""), b"name");
    assert_eq!(take_up_to(b"no stop", b"\""), b"no stop");
    assert_eq!(take_up_to(b"\"x", b"\""), b"");
}

#[test]
fn strip_cr_drops_one_carriage_return() {
    assert_eq!(strip_cr(b"line\r"), b"line");
    assert_eq!(strip_cr(b"line\r\r"), b"line\r");
    assert_eq!(strip_cr(b"line"), b"line");
    assert_eq!(strip_cr(b""), b"");
}

#[test]
fn first_line_with_skips_lines_without_the_pattern() {
    let text = b"one\r\ntwo key\r\nthree key\r\n";
    assert_eq!(first_line_with(text, b"key"), Some(&b"two key"[..]));
    assert_eq!(first_line_with(text, b"one"), Some(&b"one"[..]));
    assert_eq!(first_line_with(text, b"four"), None);
}

#[test]
fn last_line_keeps_a_bare_carriage_return() {
    assert_eq!(first_line_with(b"a\nkey\r", b"key"), Some(&b"key\r"[..]));
    assert_eq!(first_line_with(b"a\nkey\r\n", b"key"), Some(&b"key"[..]));
}

#[test]
fn pattern_across_a_line_break_is_not_in_a_line() {
    assert_eq!(first_line_with(b"ke\ny", b"key"), None);
    assert_eq!(first_line_with(b"", b""), None);
    assert_eq!(first_line_with(b"\n", b""), Some(&b""[..]));
}
