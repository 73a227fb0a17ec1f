use keybox::text::{
    decimal, join, lines, parse_usize, same_bytes, same_text, same_text_but_ascii_case,
    starts_with, trim, trim_start,
};

#[test]
fn lines_agree_with_std() {
    for text in ["", "a", "a\n", "\n", "a\r\nb", "a\rb\n", "a\r", "\r\n\r\n", "\u{e9}\n\n\u{4e00}"] {
        let expected: Vec<String> = text.lines().map(str::to_string).collect();
        assert_eq!(lines(text), expected, "{text:?}");
    }
}

#[test]
fn trimming_agrees_with_std() {
    for c in (0u32..0x11000).filter_map(char::from_u32) {
        let text = format!("{c}x{c}");
        assert_eq!(trim(&text), text.trim(), "{c:?}");
        assert_eq!(trim_start(&text), text.trim_start(), "{c:?}");
    }
    assert_eq!(trim(" \t\n"), "");
}

#[test]
fn numbers_agree_with_std() {
    for n in [0u64, 7, 10, 99, 1_048_576, u64::MAX] {
        assert_eq!(decimal(n), n.to_string());
    }
    for text in [
        "", "0", "007", "+3", "+", "-1", " 1", "1 ", "1a", "++1", "18446744073709551615",
        "18446744073709551616", "\u{661}",
    ] {
        assert_eq!(parse_usize(text), text.parse::<usize>().ok(), "{text:?}");
    }
}

#[test]
fn comparing_agrees_with_std() {
    for (a, b) in [("pem", "PEM"), ("pem", "pam"), ("", ""), ("\u{e9}", "\u{c9}"), ("k", "\u{212a}")] {
        assert_eq!(same_text_but_ascii_case(a, b), a.eq_ignore_ascii_case(b));
        assert_eq!(same_text(a, b), a == b);
        assert_eq!(same_bytes(a.as_bytes(), b.as_bytes()), a == b);
        assert_eq!(starts_with(a, b), a.starts_with(b));
    }
    assert!(starts_with("-----BEGIN X", "-----BEGIN"));
    assert!(!starts_with("-----BEG", "-----BEGIN"));
}

#[test]
fn joining_agrees_with_std() {
    for parts in [vec![], vec!["a"], vec!["a", "", "b"]] {
        let owned: Vec<String> = parts.iter().map(|p| p.to_string()).collect();
        assert_eq!(join(&owned, "; "), owned.join("; "));
    }
}
