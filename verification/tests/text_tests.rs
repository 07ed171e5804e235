use discuss_bot::text::{decimal, first_word_of, starts_with, trim, white_space};

#[test]
fn trim_drops_surrounding_white_space() {
    assert_eq!(trim("  rust \t"), "rust");
    assert_eq!(trim("\u{3000}go\u{a0}\n"), "go");
    assert_eq!(trim(" two words "), "two words");
}

#[test]
fn trim_of_blank_text_is_empty() {
    assert_eq!(trim(""), "");
    assert_eq!(trim(" \t\r\n "), "");
}

#[test]
fn trim_agrees_with_std() {
    for s in ["", "a", " a", "a ", "\u{85}x\u{2028}", "\u{200b}x", " \u{1680} y z \u{205f}"] {
        assert_eq!(trim(s), s.trim());
    }
}

#[test]
fn white_space_agrees_with_std() {
    for n in 0u32..0x3100 {
        if let Some(c) = char::from_u32(n) {
            assert_eq!(white_space(c), c.is_whitespace(), "{:x}", n);
        }
    }
}

#[test]
fn first_word_skips_leading_white_space() {
    assert_eq!(first_word_of("  https://a.com more"), "https://a.com");
    assert_eq!(first_word_of("one"), "one");
    assert_eq!(first_word_of("   "), "");
    assert_eq!(first_word_of(""), "");
}

#[test]
fn first_word_agrees_with_std() {
    for s in ["", " x y", "\tx\u{3000}y", "xy", "  "] {
        assert_eq!(first_word_of(s), s.split_whitespace().next().unwrap_or(""));
    }
}

#[test]
fn starts_with_checks_prefix() {
    assert!(starts_with("addition", "add"));
    assert!(starts_with("add", "add"));
    assert!(!starts_with("ad", "add"));
    assert!(!starts_with(" add", "add"));
    assert!(starts_with("x", ""));
}

#[test]
fn decimal_writes_integers() {
    assert_eq!(decimal(0), "0");
    assert_eq!(decimal(7), "7");
    assert_eq!(decimal(42), "42");
    assert_eq!(decimal(-1), "-1");
    assert_eq!(decimal(1000), "1000");
    assert_eq!(decimal(i64::MAX), "9223372036854775807");
    assert_eq!(decimal(i64::MIN), "-9223372036854775808");
}

#[test]
fn decimal_distinct_ids_give_distinct_texts() {
    let a = decimal(12);
    let b = decimal(-12);
    let c = decimal(120);
    assert_ne!(a, b);
    assert_ne!(a, c);
    assert_ne!(b, c);
}
