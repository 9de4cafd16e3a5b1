use clicky_companion::text::{is_blank, trim_end_matching, trim_white_space};

#[test]
fn trim_removes_unicode_white_space_at_both_ends() {
    assert_eq!(trim_white_space("  \t hello world \n"), "hello world");
    assert_eq!(trim_white_space("\u{3000}\u{a0}x\u{2009}"), "x");
    assert_eq!(trim_white_space("   "), "");
    assert_eq!(trim_white_space(""), "");
    assert_eq!(trim_white_space("a b"), "a b");
}

#[test]
fn trim_matches_std_trim() {
    for s in ["", " ", " a ", "\u{85}b\u{85}", "\u{200b}c", "é ", "\r\n\u{b}\u{c}z\u{1680}"] {
        assert_eq!(trim_white_space(s), s.trim());
    }
}

#[test]
fn blank_means_only_white_space() {
    assert!(is_blank(""));
    assert!(is_blank(" \n\t"));
    assert!(!is_blank(" . "));
}

#[test]
fn trailing_slashes_are_removed() {
    assert_eq!(trim_end_matching("https://w.example///", '/'), "https://w.example");
    assert_eq!(trim_end_matching("https://w.example", '/'), "https://w.example");
    assert_eq!(trim_end_matching("///", '/'), "");
    assert_eq!(trim_end_matching("a/b/", '/'), "a/b");
}
