use codex_core::text::{
    chars_of, decimal_text, is_whitespace, same_text, starts_with, strip_prefix, trim,
};

#[test]
fn chars_of_keeps_order_and_counts_characters_not_bytes() {
    assert_eq!(chars_of("aé∑"), vec!['a', 'é', '∑']);
    assert_eq!(chars_of(""), Vec::<char>::new());
}

#[test]
fn whitespace_is_the_unicode_white_space_property() {
    for c in [' ', '\t', '\n', '\u{b}', '\u{c}', '\r', '\u{85}', '\u{a0}', '\u{1680}', '\u{2000}',
        '\u{200a}', '\u{2028}', '\u{2029}', '\u{202f}', '\u{205f}', '\u{3000}']
    {
        assert!(is_whitespace(c), "{:?}", c);
    }
    for c in ['a', '0', '-', '\u{8}', '\u{e}', '\u{200b}', '\u{feff}', '\u{1f}'] {
        assert!(!is_whitespace(c), "{:?}", c);
    }
}

#[test]
fn whitespace_agrees_with_std_on_every_character() {
    let mut code: u32 = 0;
    while code <= 0x10ffff {
        if let Some(c) = char::from_u32(code) {
            assert_eq!(is_whitespace(c), c.is_whitespace(), "U+{:X}", code);
        }
        code += 1;
    }
}

#[test]
fn trim_removes_white_space_at_both_ends_only() {
    assert_eq!(trim("  gpt oss \n"), "gpt oss");
    assert_eq!(trim("\u{3000}x\u{a0}"), "x");
    assert_eq!(trim("x"), "x");
    assert_eq!(trim(""), "");
    assert_eq!(trim(" \t\r\n"), "");
    assert_eq!(trim("é é"), "é é");
}

#[test]
fn trim_agrees_with_std() {
    for s in ["", " ", "a", " a", "a ", " a b ", "\n\n∑ x\t", "\u{2003}é\u{2003}", "\u{200b} "] {
        assert_eq!(trim(s), s.trim(), "{:?}", s);
    }
}

#[test]
fn trim_twice_is_trim_once() {
    for s in ["", "  a  ", "\ta b\n", "x"] {
        assert_eq!(trim(trim(s)), trim(s));
    }
}

#[test]
fn starts_with_compares_the_front() {
    assert!(starts_with("gpt-oss:20b", "gpt-oss"));
    assert!(starts_with("gpt-oss", "gpt-oss"));
    assert!(starts_with("anything", ""));
    assert!(starts_with("", ""));
    assert!(!starts_with("gpt-os", "gpt-oss"));
    assert!(!starts_with("xgpt-oss", "gpt-oss"));
    assert!(!starts_with("", "a"));
    assert!(starts_with("éa", "é"));
}

#[test]
fn strip_prefix_returns_the_rest() {
    assert_eq!(strip_prefix("openai/gpt-oss", "openai/"), Some("gpt-oss"));
    assert_eq!(strip_prefix("openai/", "openai/"), Some(""));
    assert_eq!(strip_prefix("gpt-oss", "openai/"), None);
    assert_eq!(strip_prefix("ééx", "é"), Some("éx"));
}

#[test]
fn same_text_is_equality_of_characters() {
    assert!(same_text("--model", "--model"));
    assert!(same_text("", ""));
    assert!(!same_text("--model", "--model="));
    assert!(!same_text("-m", "-M"));
}

#[test]
fn decimal_text_writes_base_ten_without_leading_zeros() {
    assert_eq!(decimal_text(0), "0");
    assert_eq!(decimal_text(7), "7");
    assert_eq!(decimal_text(10), "10");
    assert_eq!(decimal_text(8080), "8080");
    assert_eq!(decimal_text(11434), "11434");
    assert_eq!(decimal_text(65535), "65535");
}

#[test]
fn decimal_text_agrees_with_std_on_every_port() {
    let mut n: u32 = 0;
    while n <= 65535 {
        assert_eq!(decimal_text(n as u16), format!("{}", n));
        n += 1;
    }
}
