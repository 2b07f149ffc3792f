use npulama::text::{
    contains, decimal_text, parse_port, strip_prefix, trim, trim_end_slashes,
};

#[test]
fn slashes_at_the_end_are_removed() {
    assert_eq!(trim_end_slashes("http://a/"), "http://a");
    assert_eq!(trim_end_slashes("http://a/b//"), "http://a/b");
    assert_eq!(trim_end_slashes("//"), "");
    assert_eq!(trim_end_slashes(""), "");
    assert_eq!(trim_end_slashes("/a"), "/a");
}

#[test]
fn white_space_is_trimmed() {
    for s in ["", " ", "a", "  a b\t\n", "\u{a0}x\u{3000}", "\u{200b}x", "\u{85}\u{2028}y\u{1680}",
        "\u{1f}z\u{1c}", "\u{feff}q"]
    {
        assert_eq!(trim(s), s.trim(), "{:?}", s);
    }
    assert_eq!(trim("  a b\t\n"), "a b");
}

#[test]
fn numbers_are_written() {
    for n in [0, 1, 9, 10, 99, 100, 11435, 65535, u64::MAX] {
        assert_eq!(decimal_text(n), n.to_string());
    }
}

#[test]
fn ports_are_read() {
    for s in ["0", "1", "11435", "65535", "65536", "99999999999999999999", "+7", "+", "-1", "-0", "",
        " 1", "1 ", "00080", "1a", "0x10", "++1", "\u{661}"]
    {
        assert_eq!(parse_port(s), s.parse::<u16>().ok(), "{:?}", s);
    }
    assert_eq!(parse_port("+00443"), Some(443));
    assert_eq!(parse_port("65536"), None);
}

#[test]
fn parts_are_found() {
    assert!(contains("phi-4-mini-instruct", "phi-4-mini"));
    assert!(contains("abcab", "cab"));
    assert!(contains("aab", "ab"));
    assert!(!contains("ab", "abc"));
    assert!(!contains("abc", "ac"));
    assert!(contains("", ""));
    assert!(contains("x", ""));
}

#[test]
fn prefixes_are_taken_off() {
    assert_eq!(strip_prefix("Bearer x", "Bearer "), Some("x".to_string()));
    assert_eq!(strip_prefix("Bearer ", "Bearer "), Some("".to_string()));
    assert_eq!(strip_prefix("Bearer", "Bearer "), None);
    assert_eq!(strip_prefix("bearer x", "Bearer "), None);
}
