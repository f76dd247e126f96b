use cwe_print::text::{
    chars_of, contains, is_blank, push_decimal, push_signed_decimal, same_text, split_lines,
    starts_with, trim,
};

fn lines(s: &str) -> Vec<String> {
    split_lines(s).into_iter().map(|l| l.into_iter().collect()).collect()
}

#[test]
fn trim_removes_unicode_white_space_at_both_ends() {
    assert_eq!(trim("  a b \t\n"), "a b");
    assert_eq!(trim("\u{3000}名字\u{a0}"), "名字");
    assert_eq!(trim(""), "");
    assert_eq!(trim(" \t "), "");
    assert_eq!(trim("x"), "x");
}

#[test]
fn trim_is_idempotent_on_examples() {
    for s in ["  a  ", "\u{2003}b\u{2003}", "c", "   "] {
        let once = trim(s);
        assert_eq!(trim(&once), once);
    }
}

#[test]
fn blank_text() {
    assert!(is_blank(""));
    assert!(is_blank(" \r\n\u{85}"));
    assert!(!is_blank(" a "));
}

#[test]
fn decimal_notation() {
    let mut s = String::new();
    push_decimal(&mut s, 0);
    assert_eq!(s, "0");
    let mut s = String::from("n=");
    push_decimal(&mut s, 1234567890);
    assert_eq!(s, "n=1234567890");
    let mut s = String::new();
    push_decimal(&mut s, u64::MAX);
    assert_eq!(s, u64::MAX.to_string());
}

#[test]
fn signed_decimal_notation() {
    let mut s = String::new();
    push_signed_decimal(&mut s, -5);
    assert_eq!(s, "-5");
    let mut s = String::new();
    push_signed_decimal(&mut s, i64::MIN);
    assert_eq!(s, "-9223372036854775808");
    let mut s = String::new();
    push_signed_decimal(&mut s, 1700000000123);
    assert_eq!(s, "1700000000123");
}

#[test]
fn same_text_compares_characters() {
    assert!(same_text("print", "print"));
    assert!(!same_text("print", "Print"));
    assert!(!same_text("print", "prin"));
    assert!(same_text("", ""));
}

#[test]
fn lines_split_like_str_lines() {
    assert_eq!(lines("a\r\nb\n\nc\r"), vec!["a", "b", "", "c\r"]);
    assert_eq!(lines(""), Vec::<String>::new());
    assert_eq!(lines("x\n"), vec!["x"]);
    assert_eq!(lines("\n"), vec![""]);
    let sample = "one\r\ntwo\nthree";
    assert_eq!(lines(sample), sample.lines().collect::<Vec<_>>());
}

#[test]
fn substring_search() {
    let line = chars_of("printer hp is idle.");
    assert!(contains(&line, &chars_of(" is idle")));
    assert!(!contains(&line, &chars_of(" offline")));
    assert!(contains(&line, &chars_of("")));
    assert!(starts_with(&line, &chars_of("printer ")));
    assert!(!starts_with(&line, &chars_of("system")));
    assert_eq!(chars_of("ab"), vec!['a', 'b']);
}
