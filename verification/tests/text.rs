use somme_cli::text::{
    equal_ignoring_ascii_case, join_strings, parse_u64, push_decimal, same_text, trimmed,
};

#[test]
fn parse_u64_agrees_with_the_standard_library() {
    for text in [
        "0", "42", "+7", "007", "", "+", "-1", " 1", "1 ", "1a", "18446744073709551615",
        "18446744073709551616", "99999999999999999999999", "+-1", "١",
    ] {
        assert_eq!(parse_u64(text), text.parse::<u64>().ok(), "{text:?}");
    }
}

#[test]
fn decimal_rendering_reads_back() {
    for n in [0u64, 9, 10, 99, 100, 1786233600, u64::MAX] {
        let mut s = String::new();
        push_decimal(&mut s, n);
        assert_eq!(s, n.to_string());
        assert_eq!(parse_u64(&s), Some(n));
    }
}

#[test]
fn trimming_agrees_with_the_standard_library() {
    for text in [
        "", "   ", " a ", "\t\n x y \r", "\u{3000}z\u{a0}", "\u{85}q\u{2029}", "no", "\u{200b}k",
    ] {
        assert_eq!(trimmed(text), text.trim(), "{text:?}");
    }
}

#[test]
fn ascii_case_comparison_agrees_with_the_standard_library() {
    for (a, b) in [
        ("unlimited", "UNLIMITED"),
        ("Unlimited", "unlimited"),
        ("unlimite", "unlimited"),
        ("\u{e9}", "\u{c9}"),
        ("[", "{"),
        ("", ""),
    ] {
        assert_eq!(equal_ignoring_ascii_case(a, b), a.eq_ignore_ascii_case(b), "{a:?} {b:?}");
    }
    assert!(same_text("abc", "abc"));
    assert!(!same_text("abc", "abd"));
}

#[test]
fn joining_puts_the_separator_between_parts() {
    let parts: Vec<String> = vec!["a".into(), "b".into(), "c".into()];
    assert_eq!(join_strings(&parts, "; "), "a; b; c");
    assert_eq!(join_strings(&Vec::new(), "; "), "");
    assert_eq!(join_strings(&vec!["x".to_string()], ", "), "x");
}
