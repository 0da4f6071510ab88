use kyanite::text::{
    copy_str, decimal_string, join, lex_less_eq, push_hex, split, starts_with, str_eq, trim,
    contains_char,
};

fn strings(v: &[&str]) -> Vec<String> {
    v.iter().map(|s| s.to_string()).collect()
}

#[test]
fn decimal_rendering() {
    assert_eq!(decimal_string(0), "0");
    assert_eq!(decimal_string(7), "7");
    assert_eq!(decimal_string(1024), "1024");
    assert_eq!(decimal_string(u64::MAX), u64::MAX.to_string());
}

#[test]
fn hex_rendering() {
    let mut s = String::from("x");
    push_hex(&mut s, &[0x00, 0x0f, 0xa5, 0xff]);
    assert_eq!(s, "x000fa5ff");
}

#[test]
fn join_like_std() {
    assert_eq!(join(&strings(&["a", "b", "c"]), "+"), "a+b+c");
    assert_eq!(join(&strings(&["one"]), "-"), "one");
    assert_eq!(join(&Vec::new(), "-"), "");
}

#[test]
fn split_like_std() {
    assert_eq!(split("a,b,,c", ','), strings(&["a", "b", "", "c"]));
    assert_eq!(split("", ','), strings(&[""]));
    assert_eq!(split(",", ','), strings(&["", ""]));
    assert_eq!(split("héllo.wörld", '.'), strings(&["héllo", "wörld"]));
}

#[test]
fn split_then_join_gives_back_the_text() {
    for text in ["a,b,,c", "", ",,", "no separator", "tail,"] {
        assert_eq!(join(&split(text, ','), ","), text);
    }
}

#[test]
fn trim_like_std() {
    for text in ["  a b  ", "\t\nx\u{3000}", "", "   ", "plain", "\u{a0}nbsp\u{2029}"] {
        assert_eq!(trim(text), text.trim());
        assert_eq!(trim(&trim(text)), trim(text));
    }
}

#[test]
fn comparisons() {
    assert!(str_eq("abc", "abc"));
    assert!(!str_eq("abc", "abd"));
    assert!(!str_eq("ab", "abc"));
    assert!(starts_with("version = \"1\"", "version"));
    assert!(!starts_with("ver", "version"));
    assert!(contains_char("a?b", '?'));
    assert!(!contains_char("ab", '?'));
    assert!(lex_less_eq("abc", "abd"));
    assert!(lex_less_eq("ab", "abc"));
    assert!(lex_less_eq("abc", "abc"));
    assert!(!lex_less_eq("b", "abc"));
    assert_eq!(copy_str("same"), "same");
}
