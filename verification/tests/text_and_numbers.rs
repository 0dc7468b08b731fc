use windirparse::numtext::{parse_i32, parse_i64, push_dec, push_int, push_pad2};
use windirparse::text::{
    chars_of, contains_chars, last_index_of, same_chars, split_chars, string_of, trim_chars,
};

fn cs(s: &str) -> Vec<char> {
    s.chars().collect()
}

fn st(v: &Vec<char>) -> String {
    v.iter().collect()
}

#[test]
fn chars_and_string_round_trip() {
    let v = chars_of("héllo wörld");
    assert_eq!(v, cs("héllo wörld"));
    assert_eq!(string_of(&v), "héllo wörld");
}

#[test]
fn split_keeps_empty_pieces() {
    let parts = split_chars(&cs("a||b|"), '|');
    let got: Vec<String> = parts.iter().map(st).collect();
    assert_eq!(got, vec!["a", "", "b", ""]);
    let parts = split_chars(&cs(""), '|');
    assert_eq!(parts.len(), 1);
    assert!(parts[0].is_empty());
}

#[test]
fn contains_finds_substrings() {
    assert!(contains_chars(&cs("report.tmp"), &cs(".tmp")));
    assert!(!contains_chars(&cs("report.txt"), &cs(".tmp")));
    assert!(contains_chars(&cs("abc"), &cs("")));
    assert!(!contains_chars(&cs("ab"), &cs("abc")));
}

#[test]
fn trim_removes_unicode_white_space() {
    assert_eq!(st(&trim_chars(&cs("  exclude file \r\n"))), "exclude file");
    assert_eq!(st(&trim_chars(&cs("\u{3000}x\u{a0}"))), "x");
    assert_eq!(st(&trim_chars(&cs(" \t "))), "");
    assert_eq!(st(&trim_chars(&cs("a b"))), "a b");
}

#[test]
fn last_index_finds_last_backslash() {
    assert_eq!(last_index_of(&cs("C:\\a\\b.txt"), '\\'), Some(4));
    assert_eq!(last_index_of(&cs("b.txt"), '\\'), None);
    assert!(same_chars(&cs("x"), &cs("x")));
    assert!(!same_chars(&cs("x"), &cs("xy")));
}

#[test]
fn decimal_text() {
    let mut v = Vec::new();
    push_dec(&mut v, 0);
    assert_eq!(st(&v), "0");
    let mut v = Vec::new();
    push_dec(&mut v, 18446744073709551615);
    assert_eq!(st(&v), "18446744073709551615");
    let mut v = Vec::new();
    push_int(&mut v, -42);
    assert_eq!(st(&v), "-42");
    let mut v = Vec::new();
    push_int(&mut v, i64::MIN);
    assert_eq!(st(&v), i64::MIN.to_string());
    let mut v = Vec::new();
    push_pad2(&mut v, 7);
    assert_eq!(st(&v), "07");
    let mut v = Vec::new();
    push_pad2(&mut v, 123);
    assert_eq!(st(&v), "123");
}

#[test]
fn parse_like_std() {
    for s in ["0", "+5", "-0", "-17", "", "+", "-", "12x", " 1", "9223372036854775807",
        "9223372036854775808", "-9223372036854775808", "-9223372036854775809",
        "00012", "+-3", "99999999999999999999999"]
    {
        assert_eq!(parse_i64(&cs(s)), s.parse::<i64>().ok(), "i64 {:?}", s);
        assert_eq!(parse_i32(&cs(s)), s.parse::<i32>().ok(), "i32 {:?}", s);
    }
    assert_eq!(parse_i32(&cs("2147483648")), None);
    assert_eq!(parse_i32(&cs("-2147483648")), Some(i32::MIN));
}
