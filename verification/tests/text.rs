use opencli_rs::stealth::stealth_js;
use opencli_rs::text::{contains_str, escape_js, is_blank, trim_str};

#[test]
fn escape_js_doubles_backslashes_and_escapes_quotes() {
    assert_eq!(escape_js(r"a\b'c"), r"a\\b\'c");
    assert_eq!(escape_js(r"\'"), r"\\\'");
    assert_eq!(escape_js("plain"), "plain");
    assert_eq!(escape_js(""), "");
}

#[test]
fn escape_js_distinguishes_inputs() {
    assert_ne!(escape_js(r"\'"), escape_js(r"'"));
    assert_ne!(escape_js(r"\\"), escape_js(r"\"));
}

#[test]
fn trim_removes_unicode_whitespace() {
    assert_eq!(trim_str("\u{2003} x y \u{85}"), "x y");
    assert_eq!(trim_str("\u{200b}x"), "\u{200b}x");
    assert!(is_blank(" \t\u{2028}"));
    assert!(!is_blank(" . "));
}

#[test]
fn contains_finds_substrings() {
    assert!(contains_str("https://api.anthropic.com/v1/messages", "anthropic"));
    assert!(!contains_str("https://api.openai.com", "anthropic"));
    assert!(contains_str("abc", ""));
}

#[test]
fn stealth_js_hides_webdriver() {
    let js = stealth_js();
    assert!(js.starts_with("(() => {\n  // Remove webdriver property"));
    assert!(js.contains("Object.defineProperty(navigator, 'webdriver'"));
    assert!(js.ends_with("})()"));
}

#[test]
fn trim_agrees_with_std() {
    let all: String = (0u32..0x3100).filter_map(char::from_u32).collect();
    for c in all.chars() {
        let s = format!("{c}x{c}");
        assert_eq!(trim_str(&s), s.trim(), "U+{:04X}", c as u32);
    }
    assert_eq!(trim_str("\u{feff}x"), "\u{feff}x".trim());
}
