use opencli_rs::dom_helpers::{
    auto_scroll_js, click_js, get_intercepted_requests_js, install_interceptor_js,
    network_requests_js, press_key_js, scroll_js, snapshot_js, type_text_js,
    wait_for_dom_stable_js, wait_for_selector_js,
};

#[test]
fn test_click_js_contains_selector() {
    let js = click_js("#btn");
    assert!(js.contains("#btn"));
    assert!(js.contains("querySelector"));
    assert!(js.contains(".click()"));
}

#[test]
fn test_type_text_js_contains_text() {
    let js = type_text_js("input.name", "hello world");
    assert!(js.contains("input.name"));
    assert!(js.contains("hello world"));
    assert!(js.contains(".value ="));
}

#[test]
fn test_press_key_js() {
    let js = press_key_js("Enter");
    assert!(js.contains("Enter"));
    assert!(js.contains("keydown"));
}

#[test]
fn test_scroll_js_up() {
    let js = scroll_js("up", 500);
    assert!(js.contains("-500"));
}

#[test]
fn test_scroll_js_down() {
    let js = scroll_js("down", 300);
    assert!(js.contains("300"));
}

#[test]
fn test_auto_scroll_js() {
    let js = auto_scroll_js(10, 200);
    assert!(js.contains("10"));
    assert!(js.contains("200"));
}

#[test]
fn test_network_requests_js() {
    let js = network_requests_js();
    assert!(js.contains("getEntriesByType"));
}

#[test]
fn test_install_interceptor_js() {
    let js = install_interceptor_js("api\\.example\\.com");
    assert!(js.contains("api\\\\.example\\\\.com"));
    assert!(js.contains("__opencli_intercepted"));
}

#[test]
fn test_get_intercepted_requests_js() {
    let js = get_intercepted_requests_js();
    assert!(js.contains("__opencli_intercepted"));
}

#[test]
fn test_snapshot_js() {
    let js = snapshot_js(None, false);
    assert!(js.contains("document.body"));
    assert!(js.contains("walk"));
}

#[test]
fn test_wait_for_selector_js() {
    let js = wait_for_selector_js(".loading", 5000, true);
    assert!(js.contains(".loading"));
    assert!(js.contains("5000"));
    assert!(js.contains("offsetParent"));
}

#[test]
fn click_js_exact_text() {
    assert_eq!(
        click_js("#btn"),
        "(() => {\n  const el = document.querySelector('#btn');\n  if (!el) throw new Error('Element not found: #btn');\n  el.click();\n  return true;\n})()"
    );
}

#[test]
fn click_js_escapes_quotes_and_backslashes() {
    let js = click_js("a[title='x\\y']");
    assert!(js.contains("document.querySelector('a[title=\\'x\\\\y\\']')"));
}

#[test]
fn type_text_js_escapes_text() {
    let js = type_text_js("#q", "it's");
    assert!(js.contains("el.value = 'it\\'s';"));
}

#[test]
fn press_key_js_exact_text() {
    assert_eq!(
        press_key_js("Tab"),
        "(() => {\n  const target = document.activeElement || document.body;\n  const opts = { key: 'Tab', code: 'Tab', bubbles: true, cancelable: true };\n  target.dispatchEvent(new KeyboardEvent('keydown', opts));\n  target.dispatchEvent(new KeyboardEvent('keypress', opts));\n  target.dispatchEvent(new KeyboardEvent('keyup', opts));\n  return true;\n})()"
    );
}

#[test]
fn scroll_js_exact_text() {
    assert_eq!(
        scroll_js("up", 500),
        "(() => {\n  window.scrollBy({ top: -500, behavior: 'smooth' });\n  return { scrollY: window.scrollY, scrollHeight: document.body.scrollHeight };\n})()"
    );
}

#[test]
fn scroll_js_any_other_direction_scrolls_down() {
    assert!(scroll_js("sideways", 42).contains("top: 42,"));
    assert!(scroll_js("UP", 7).contains("top: 7,"));
    assert!(scroll_js("down", -9).contains("top: -9,"));
}

#[test]
fn scroll_js_extremes() {
    assert!(scroll_js("down", i32::MIN).contains("top: -2147483648,"));
    assert!(scroll_js("up", i32::MAX).contains("top: -2147483647,"));
    assert!(scroll_js("down", 0).contains("top: 0,"));
}

#[test]
fn scroll_up_equals_scroll_down_negated() {
    assert_eq!(scroll_js("up", 123), scroll_js("down", -123));
}

#[test]
fn auto_scroll_js_exact_numbers() {
    let js = auto_scroll_js(0, 18446744073709551615);
    assert!(js.contains("const max = 0;\n  const delay = 18446744073709551615;\n"));
}

#[test]
fn wait_for_dom_stable_js_text() {
    let js = wait_for_dom_stable_js();
    assert!(js.starts_with("(async () => {\n  return new Promise((resolve) => {"));
    assert!(js.contains("MutationObserver"));
    assert!(js.ends_with("})()"));
}

#[test]
fn snapshot_js_with_selector_and_hidden() {
    let js = snapshot_js(Some("#main's"), true);
    assert!(js.contains("const root = document.querySelector('#main\\'s') || document.body;"));
    assert!(js.contains("if (false) return null;"));
}

#[test]
fn snapshot_js_hides_invisible_elements() {
    let js = snapshot_js(None, false);
    assert!(js.contains("if (getComputedStyle(el).display === 'none' || getComputedStyle(el).visibility === 'hidden') return null;"));
    assert!(js.contains("const root = document.body;"));
}

#[test]
fn wait_for_selector_js_without_visibility() {
    let js = wait_for_selector_js("#x", 100, false);
    assert!(js.contains("if (el) return true;"));
    assert!(!js.contains("offsetParent"));
    assert!(js.contains("Date.now() + 100;"));
}
