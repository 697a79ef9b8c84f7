use ncli::config::expand_home;
use ncli::prompt::{format_prompt, parse_answer};
use ncli::strutil::{
    find, parse_u32, split2, str_eq, strip_suffix_str, trim_str, u32_to_string,
};

#[test]
fn trim_both_ends() {
    assert_eq!(trim_str("  hello \t\r\n"), "hello");
    assert_eq!(trim_str("hello"), "hello");
    assert_eq!(trim_str("   "), "");
    assert_eq!(trim_str(""), "");
    assert_eq!(trim_str(" a b "), "a b");
}

#[test]
fn find_first_occurrence() {
    assert_eq!(find("a|b|c", "|"), Some(1));
    assert_eq!(find("abc", "|"), None);
    assert_eq!(find("Page:&nbsp;32", ":&nbsp;"), Some(4));
    assert_eq!(find("ab", "abc"), None);
}

#[test]
fn split_in_two() {
    let (a, b) = split2("Title A: Subtitle A", ":");
    assert_eq!(a, "Title A");
    assert_eq!(b.as_deref(), Some(" Subtitle A"));
    let (a, b) = split2("no separator", "|");
    assert_eq!(a, "no separator");
    assert_eq!(b, None);
    let (a, b) = split2("x||y", "|");
    assert_eq!(a, "x");
    assert_eq!(b.as_deref(), Some("|y"));
}

#[test]
fn prefix_and_suffix() {
    assert_eq!(strip_suffix_str("book-chapters", "-chapters").as_deref(), Some("book"));
    assert_eq!(strip_suffix_str("book", "-chapters"), None);
}

#[test]
fn string_equality() {
    assert!(str_eq("Page", "Page"));
    assert!(!str_eq("Page", "Pages"));
    assert!(!str_eq("Page", "page"));
}

#[test]
fn parse_decimal() {
    assert_eq!(parse_u32("0"), Some(0));
    assert_eq!(parse_u32("1024"), Some(1024));
    assert_eq!(parse_u32("4294967295"), Some(u32::MAX));
    assert_eq!(parse_u32("4294967296"), None);
    assert_eq!(parse_u32(""), None);
    assert_eq!(parse_u32("12a"), None);
    assert_eq!(parse_u32("-1"), None);
}

#[test]
fn render_decimal() {
    assert_eq!(u32_to_string(0), "0");
    assert_eq!(u32_to_string(7), "7");
    assert_eq!(u32_to_string(1024), "1024");
    assert_eq!(u32_to_string(u32::MAX), "4294967295");
}

#[test]
fn parse_then_render_round_trip() {
    for v in [0u32, 9, 10, 99, 100, 123456789, u32::MAX] {
        assert_eq!(parse_u32(&u32_to_string(v)), Some(v));
    }
}

#[test]
fn answers_accepted_case_insensitively() {
    assert_eq!(parse_answer("y"), Some(true));
    assert_eq!(parse_answer("Y"), Some(true));
    assert_eq!(parse_answer("n"), Some(false));
    assert_eq!(parse_answer("N"), Some(false));
    assert_eq!(parse_answer(" y\n"), Some(true));
    assert_eq!(parse_answer("  N  "), Some(false));
}

#[test]
fn malformed_answers_rejected() {
    assert_eq!(parse_answer(""), None);
    assert_eq!(parse_answer("yes"), None);
    assert_eq!(parse_answer("no"), None);
    assert_eq!(parse_answer("maybe"), None);
    assert_eq!(parse_answer("yn"), None);
}

#[test]
fn prompt_format() {
    assert_eq!(format_prompt("Do you want to fetch the book data?"),
        "Do you want to fetch the book data? (y/n): ");
}

#[test]
fn home_expansion() {
    assert_eq!(expand_home("~", "/home/u"), "/home/u");
    assert_eq!(expand_home("~/.ncli/config.toml", "/home/u"), "/home/u/.ncli/config.toml");
    assert_eq!(expand_home("/etc/x", "/home/u"), "/etc/x");
    assert_eq!(expand_home("~abc/x", "/home/u"), "~abc/x");
    assert_eq!(expand_home("", "/home/u"), "");
}
