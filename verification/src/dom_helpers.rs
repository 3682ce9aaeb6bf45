//! JavaScript snippets that drive a page: clicking, typing, key presses,
//! scrolling, waiting, network capture and DOM snapshots. Every text that
//! comes from the caller is escaped (see `text::js_escape`) before it is
//! placed inside a single-quoted JavaScript literal.

use vstd::prelude::*;
use vstd::string::*;
use crate::text::{
    decimal_int, decimal_nat, escape_js, js_escape, js_unescape, lemma_js_escape_round_trip,
    push_decimal_i64, push_decimal_u64,
};

verus! {

/// Text of the click script (part 0).
pub const CLICK_0: &'static str = r#"(() => {
  const el = document.querySelector('"#;

/// Text of the click script (part 1).
pub const CLICK_1: &'static str = r#"');
  if (!el) throw new Error('Element not found: "#;

/// Text of the click script (part 2).
pub const CLICK_2: &'static str = r#"');
  el.click();
  return true;
})()"#;


/// Text of the type text script (part 0).
pub const TYPE_TEXT_0: &'static str = r#"(() => {
  const el = document.querySelector('"#;

/// Text of the type text script (part 1).
pub const TYPE_TEXT_1: &'static str = r#"');
  if (!el) throw new Error('Element not found: "#;

/// Text of the type text script (part 2).
pub const TYPE_TEXT_2: &'static str = r#"');
  el.focus();
  el.value = '"#;

/// Text of the type text script (part 3).
pub const TYPE_TEXT_3: &'static str = r#"';
  el.dispatchEvent(new Event('input', { bubbles: true }));
  el.dispatchEvent(new Event('change', { bubbles: true }));
  return true;
})()"#;


/// Text of the press key script (part 0).
pub const PRESS_KEY_0: &'static str = r#"(() => {
  const target = document.activeElement || document.body;
  const opts = { key: '"#;

/// Text of the press key script (part 1).
pub const PRESS_KEY_1: &'static str = r#"', code: '"#;

/// Text of the press key script (part 2).
pub const PRESS_KEY_2: &'static str = r#"', bubbles: true, cancelable: true };
  target.dispatchEvent(new KeyboardEvent('keydown', opts));
  target.dispatchEvent(new KeyboardEvent('keypress', opts));
  target.dispatchEvent(new KeyboardEvent('keyup', opts));
  return true;
})()"#;


/// Text of the scroll script (part 0).
pub const SCROLL_0: &'static str = r#"(() => {
  window.scrollBy({ top: "#;

/// Text of the scroll script (part 1).
pub const SCROLL_1: &'static str = r#", behavior: 'smooth' });
  return { scrollY: window.scrollY, scrollHeight: document.body.scrollHeight };
})()"#;


/// Text of the auto scroll script (part 0).
pub const AUTO_SCROLL_0: &'static str = r#"(async () => {
  let prev = -1;
  let scrolls = 0;
  const max = "#;

/// Text of the auto scroll script (part 1).
pub const AUTO_SCROLL_1: &'static str = r#";
  const delay = "#;

/// Text of the auto scroll script (part 2).
pub const AUTO_SCROLL_2: &'static str = r#";
  while (scrolls < max) {
    window.scrollBy(0, window.innerHeight);
    await new Promise(r => setTimeout(r, delay));
    const cur = window.scrollY;
    if (cur === prev) break;
    prev = cur;
    scrolls++;
  }
  return { scrolls, scrollY: window.scrollY, scrollHeight: document.body.scrollHeight };
})()"#;


/// Text of the dom stable script.
pub const DOM_STABLE: &'static str = r#"(async () => {
  return new Promise((resolve) => {
    let timer;
    const observer = new MutationObserver(() => {
      clearTimeout(timer);
      timer = setTimeout(() => { observer.disconnect(); resolve(true); }, 500);
    });
    observer.observe(document.body, { childList: true, subtree: true, attributes: true });
    timer = setTimeout(() => { observer.disconnect(); resolve(true); }, 2000);
  });
})()"#;


/// Text of the network requests script.
pub const NETWORK_REQUESTS: &'static str = r#"(() => {
  const entries = performance.getEntriesByType('resource');
  return entries.map(e => ({
    url: e.name,
    method: 'GET',
    status: null,
    headers: {},
    body: null,
    response_body: null,
    duration: e.duration,
    type: e.initiatorType,
  }));
})()"#;


/// Text of the interceptor script (part 0).
pub const INTERCEPTOR_0: &'static str = r#"(() => {
  if (!window.__opencli_intercepted) window.__opencli_intercepted = [];
  const regex = new RegExp('"#;

/// Text of the interceptor script (part 1).
pub const INTERCEPTOR_1: &'static str = r#"');
  const origFetch = window.fetch;
  window.fetch = async function(...args) {
    const req = new Request(...args);
    const url = req.url;
    if (regex.test(url)) {
      const body = await req.clone().text().catch(() => null);
      window.__opencli_intercepted.push({
        url, method: req.method,
        headers: Object.fromEntries(req.headers.entries()),
        body,
      });
    }
    return origFetch.apply(this, args);
  };
  const origXhr = XMLHttpRequest.prototype.open;
  XMLHttpRequest.prototype.open = function(method, url, ...rest) {
    if (regex.test(url)) {
      this.__opencli_url = url;
      this.__opencli_method = method;
    }
    return origXhr.call(this, method, url, ...rest);
  };
  const origSend = XMLHttpRequest.prototype.send;
  XMLHttpRequest.prototype.send = function(body) {
    if (this.__opencli_url) {
      window.__opencli_intercepted.push({
        url: this.__opencli_url, method: this.__opencli_method,
        headers: {}, body: typeof body === 'string' ? body : null,
      });
    }
    return origSend.call(this, body);
  };
  return true;
})()"#;


/// Text of the intercepted script.
pub const INTERCEPTED: &'static str = r#"(() => {
  const reqs = window.__opencli_intercepted || [];
  window.__opencli_intercepted = [];
  return reqs;
})()"#;


/// Text of the snapshot script (part 0).
pub const SNAPSHOT_0: &'static str = r#"(() => {
  function walk(el, depth) {
    if ("#;

/// Text of the snapshot script (part 1).
pub const SNAPSHOT_1: &'static str = r#") return null;
    const tag = el.tagName ? el.tagName.toLowerCase() : '';
    const role = el.getAttribute && el.getAttribute('role') || '';
    const text = el.childNodes.length === 1 && el.childNodes[0].nodeType === 3
      ? el.childNodes[0].textContent.trim().slice(0, 200) : '';
    const children = [];
    for (const child of el.children || []) {
      const c = walk(child, depth + 1);
      if (c) children.push(c);
    }
    if (!tag && !text && children.length === 0) return null;
    const node = { tag };
    if (role) node.role = role;
    if (text) node.text = text;
    if (el.id) node.id = el.id;
    if (el.className && typeof el.className === 'string') node.class = el.className.slice(0, 100);
    if (el.href) node.href = el.href;
    if (el.src) node.src = el.src;
    if (children.length > 0) node.children = children;
    return node;
  }
  const root = "#;

/// Text of the snapshot script (part 2).
pub const SNAPSHOT_2: &'static str = r#";
  return walk(root, 0);
})()"#;


/// Text of the wait selector script (part 0).
pub const WAIT_SELECTOR_0: &'static str = r#"(async () => {
  const deadline = Date.now() + "#;

/// Text of the wait selector script (part 1).
pub const WAIT_SELECTOR_1: &'static str = r#";
  while (Date.now() < deadline) {
    const el = document.querySelector('"#;

/// Text of the wait selector script (part 2).
pub const WAIT_SELECTOR_2: &'static str = r#"');
    if (el"#;

/// Text of the wait selector script (part 3).
pub const WAIT_SELECTOR_3: &'static str = r#") return true;
    await new Promise(r => setTimeout(r, 100));
  }
  throw new Error('Timeout waiting for selector: "#;

/// Text of the wait selector script (part 4).
pub const WAIT_SELECTOR_4: &'static str = r#"');
})()"#;


/// The script that clicks the element `selector` selects.
pub open spec fn click_script(selector: Seq<char>) -> Seq<char> {
    let e = js_escape(selector);
    CLICK_0@ + e + CLICK_1@ + e + CLICK_2@
}

/// Generate JS to click an element by CSS selector.
pub fn click_js(selector: &str) -> (r: String)
    ensures
        r@ == click_script(selector@),
{
    let escaped = escape_js(selector);
    let mut r = String::from_str(CLICK_0);
    r.append(escaped.as_str());
    r.append(CLICK_1);
    r.append(escaped.as_str());
    r.append(CLICK_2);
    r
}

/// The script that focuses the element `selector` selects, sets its value to
/// `text` and fires `input` and `change` events.
pub open spec fn type_text_script(selector: Seq<char>, text: Seq<char>) -> Seq<char> {
    let e = js_escape(selector);
    TYPE_TEXT_0@ + e + TYPE_TEXT_1@ + e + TYPE_TEXT_2@ + js_escape(text) + TYPE_TEXT_3@
}

/// Generate JS to type text into an element by CSS selector.
pub fn type_text_js(selector: &str, text: &str) -> (r: String)
    ensures
        r@ == type_text_script(selector@, text@),
{
    let sel = escape_js(selector);
    let txt = escape_js(text);
    let mut r = String::from_str(TYPE_TEXT_0);
    r.append(sel.as_str());
    r.append(TYPE_TEXT_1);
    r.append(sel.as_str());
    r.append(TYPE_TEXT_2);
    r.append(txt.as_str());
    r.append(TYPE_TEXT_3);
    r
}

/// The script that sends `keydown`, `keypress` and `keyup` for `key` to the
/// focused element.
pub open spec fn press_key_script(key: Seq<char>) -> Seq<char> {
    let k = js_escape(key);
    PRESS_KEY_0@ + k + PRESS_KEY_1@ + k + PRESS_KEY_2@
}

/// Generate JS to simulate a key press.
pub fn press_key_js(key: &str) -> (r: String)
    ensures
        r@ == press_key_script(key@),
{
    let k = escape_js(key);
    let mut r = String::from_str(PRESS_KEY_0);
    r.append(k.as_str());
    r.append(PRESS_KEY_1);
    r.append(k.as_str());
    r.append(PRESS_KEY_2);
    r
}

/// The vertical offset a scroll in `direction` by `amount` pixels moves by:
/// upwards for the direction `up`, downwards for any other.
pub open spec fn scroll_offset(direction: Seq<char>, amount: int) -> int {
    if direction == "up"@ { -amount } else { amount }
}

/// The script that scrolls the window by `offset` pixels and reports the
/// position it reached.
pub open spec fn scroll_script(offset: int) -> Seq<char> {
    SCROLL_0@ + decimal_int(offset) + SCROLL_1@
}

/// Generate JS to scroll in a given direction by an amount of pixels.
pub fn scroll_js(direction: &str, amount: i32) -> (r: String)
    requires
        direction@ == "up"@ ==> amount != i32::MIN,
    ensures
        r@ == scroll_script(scroll_offset(direction@, amount as int)),
{
    let up = str_eq(direction, "up");
    let y: i32 = if up { -amount } else { amount };
    let mut r = String::from_str(SCROLL_0);
    push_decimal_i64(&mut r, y as i64);
    r.append(SCROLL_1);
    r
}

/// Law: scrolling up by `amount` pixels gives the same script as scrolling
/// in any other direction by `-amount` pixels.
pub proof fn lemma_scroll_up_is_down_negated(other: Seq<char>, amount: int)
    requires
        other != "up"@,
    ensures
        scroll_script(scroll_offset("up"@, amount)) == scroll_script(scroll_offset(other, -amount)),
{
}

/// Whether two string slices hold the same characters.
fn str_eq(a: &str, b: &str) -> (r: bool)
    ensures
        r == (a@ == b@),
{
    let x = crate::text::chars_of(a);
    let y = crate::text::chars_of(b);
    if x.len() != y.len() {
        return false;
    }
    let mut i: usize = 0;
    while i < x.len()
        invariant
            x@ == a@,
            y@ == b@,
            x.len() == y.len(),
            0 <= i <= x.len(),
            forall|k: int| 0 <= k < i ==> x@[k] == y@[k],
        decreases x.len() - i,
    {
        if x[i] != y[i] {
            return false;
        }
        i += 1;
    }
    assert(x@ =~= y@);
    true
}

/// The script that scrolls by one window height at a time, waiting
/// `delay_ms` after each step, until `max_scrolls` steps were made or the
/// position stopped changing.
pub open spec fn auto_scroll_script(max_scrolls: nat, delay_ms: nat) -> Seq<char> {
    AUTO_SCROLL_0@ + decimal_nat(max_scrolls) + AUTO_SCROLL_1@ + decimal_nat(delay_ms) + AUTO_SCROLL_2@
}

/// Generate JS to auto-scroll the page repeatedly.
pub fn auto_scroll_js(max_scrolls: u32, delay_ms: u64) -> (r: String)
    ensures
        r@ == auto_scroll_script(max_scrolls as nat, delay_ms as nat),
{
    let mut r = String::from_str(AUTO_SCROLL_0);
    push_decimal_u64(&mut r, max_scrolls as u64);
    r.append(AUTO_SCROLL_1);
    push_decimal_u64(&mut r, delay_ms);
    r.append(AUTO_SCROLL_2);
    r
}

/// Generate JS that waits for DOM stability (no mutations for a period).
pub fn wait_for_dom_stable_js() -> (r: String)
    ensures
        r@ == DOM_STABLE@,
{
    String::from_str(DOM_STABLE)
}

/// Generate JS to capture network request information from Performance API.
pub fn network_requests_js() -> (r: String)
    ensures
        r@ == NETWORK_REQUESTS@,
{
    String::from_str(NETWORK_REQUESTS)
}

/// The script that records every `fetch` and `XMLHttpRequest` whose URL
/// matches the regular expression `pattern`.
pub open spec fn interceptor_script(pattern: Seq<char>) -> Seq<char> {
    INTERCEPTOR_0@ + js_escape(pattern) + INTERCEPTOR_1@
}

/// Generate JS to install a network request interceptor for a URL pattern.
pub fn install_interceptor_js(pattern: &str) -> (r: String)
    ensures
        r@ == interceptor_script(pattern@),
{
    let pat = escape_js(pattern);
    let mut r = String::from_str(INTERCEPTOR_0);
    r.append(pat.as_str());
    r.append(INTERCEPTOR_1);
    r
}

/// Generate JS to retrieve intercepted requests.
pub fn get_intercepted_requests_js() -> (r: String)
    ensures
        r@ == INTERCEPTED@,
{
    String::from_str(INTERCEPTED)
}

/// The element a snapshot starts from: the first match of `selector`
/// (falling back to the body), or the body.
pub open spec fn snapshot_root(selector: Option<Seq<char>>) -> Seq<char> {
    match selector {
        Some(s) => "document.querySelector('"@ + js_escape(s) + "') || document.body"@,
        None => "document.body"@,
    }
}

/// The test that skips an element in a snapshot: never, when hidden
/// elements are included; else when it is not displayed or not visible.
pub open spec fn snapshot_hidden_check(include_hidden: bool) -> Seq<char> {
    if include_hidden {
        "false"@
    } else {
        "getComputedStyle(el).display === 'none' || getComputedStyle(el).visibility === 'hidden'"@
    }
}

/// The script that walks the DOM from the snapshot root and returns a
/// simplified accessibility tree.
pub open spec fn snapshot_script(selector: Option<Seq<char>>, include_hidden: bool) -> Seq<char> {
    SNAPSHOT_0@ + snapshot_hidden_check(include_hidden) + SNAPSHOT_1@ + snapshot_root(selector)
        + SNAPSHOT_2@
}

/// Generate JS to get a DOM snapshot as simplified accessibility tree.
pub fn snapshot_js(selector: Option<&str>, include_hidden: bool) -> (r: String)
    ensures
        r@ == snapshot_script(
            match selector {
                Some(s) => Some(s@),
                None => None,
            },
            include_hidden,
        ),
{
    let root = match selector {
        Some(s) => {
            let sel = escape_js(s);
            let mut root = String::from_str("document.querySelector('");
            root.append(sel.as_str());
            root.append("') || document.body");
            root
        },
        None => String::from_str("document.body"),
    };
    let hidden_check = if include_hidden {
        "false"
    } else {
        "getComputedStyle(el).display === 'none' || getComputedStyle(el).visibility === 'hidden'"
    };
    let mut r = String::from_str(SNAPSHOT_0);
    r.append(hidden_check);
    r.append(SNAPSHOT_1);
    r.append(root.as_str());
    r.append(SNAPSHOT_2);
    r
}

/// The extra test that a waited-for element must pass: being rendered, when
/// `visible` is asked for.
pub open spec fn visible_check(visible: bool) -> Seq<char> {
    if visible {
        " && el.offsetParent !== null"@
    } else {
        ""@
    }
}

/// The script that polls every 100 ms for `selector` until `timeout_ms`
/// have passed, and fails with a timeout error after that.
pub open spec fn wait_for_selector_script(selector: Seq<char>, timeout_ms: nat, visible: bool) -> Seq<
    char,
> {
    let e = js_escape(selector);
    WAIT_SELECTOR_0@ + decimal_nat(timeout_ms) + WAIT_SELECTOR_1@ + e + WAIT_SELECTOR_2@
        + visible_check(visible) + WAIT_SELECTOR_3@ + e + WAIT_SELECTOR_4@
}

/// Generate JS to wait for a selector to appear.
pub fn wait_for_selector_js(selector: &str, timeout_ms: u64, visible: bool) -> (r: String)
    ensures
        r@ == wait_for_selector_script(selector@, timeout_ms as nat, visible),
{
    let sel = escape_js(selector);
    let check = if visible {
        " && el.offsetParent !== null"
    } else {
        ""
    };
    let mut r = String::from_str(WAIT_SELECTOR_0);
    push_decimal_u64(&mut r, timeout_ms);
    r.append(WAIT_SELECTOR_1);
    r.append(sel.as_str());
    r.append(WAIT_SELECTOR_2);
    r.append(check);
    r.append(WAIT_SELECTOR_3);
    r.append(sel.as_str());
    r.append(WAIT_SELECTOR_4);
    r
}


// ---------------------------------------------------------------------
// Laws: caller text enters a script only as a literal that reads back as it
// ---------------------------------------------------------------------

/// Law: the selector enters the click script, twice, only as the body of a
/// single-quoted literal that reads back as the selector, whatever quotes
/// or backslashes it holds.
pub proof fn lemma_click_script_quotes_selector(selector: Seq<char>)
    ensures
        exists|e: Seq<char>|
            #![trigger js_unescape(e)]
            click_script(selector) == CLICK_0@ + e + CLICK_1@ + e + CLICK_2@ && js_unescape(e)
                == Some(selector),
{
    lemma_js_escape_round_trip(selector);
    let e = js_escape(selector);
    assert(click_script(selector) == CLICK_0@ + e + CLICK_1@ + e + CLICK_2@ && js_unescape(e)
        == Some(selector));
}

/// Law: the selector and the text enter the type-text script only as bodies
/// of single-quoted literals that read back as them.
pub proof fn lemma_type_text_script_quotes_inputs(selector: Seq<char>, text: Seq<char>)
    ensures
        exists|e: Seq<char>, t: Seq<char>|
            #![trigger js_unescape(e), js_unescape(t)]
            type_text_script(selector, text) == TYPE_TEXT_0@ + e + TYPE_TEXT_1@ + e + TYPE_TEXT_2@
                + t + TYPE_TEXT_3@ && js_unescape(e) == Some(selector) && js_unescape(t) == Some(
                text,
            ),
{
    lemma_js_escape_round_trip(selector);
    lemma_js_escape_round_trip(text);
    let e = js_escape(selector);
    let t = js_escape(text);
    assert(type_text_script(selector, text) == TYPE_TEXT_0@ + e + TYPE_TEXT_1@ + e + TYPE_TEXT_2@
        + t + TYPE_TEXT_3@ && js_unescape(e) == Some(selector) && js_unescape(t) == Some(text));
}

/// Law: the key enters the key-press script, twice, only as the body of a
/// single-quoted literal that reads back as the key.
pub proof fn lemma_press_key_script_quotes_key(key: Seq<char>)
    ensures
        exists|k: Seq<char>|
            #![trigger js_unescape(k)]
            press_key_script(key) == PRESS_KEY_0@ + k + PRESS_KEY_1@ + k + PRESS_KEY_2@
                && js_unescape(k) == Some(key),
{
    lemma_js_escape_round_trip(key);
    let k = js_escape(key);
    assert(press_key_script(key) == PRESS_KEY_0@ + k + PRESS_KEY_1@ + k + PRESS_KEY_2@ && js_unescape(
        k,
    ) == Some(key));
}

/// Law: the URL pattern enters the interceptor script only as the body of a
/// single-quoted literal that reads back as the pattern.
pub proof fn lemma_interceptor_script_quotes_pattern(pattern: Seq<char>)
    ensures
        exists|e: Seq<char>|
            #![trigger js_unescape(e)]
            interceptor_script(pattern) == INTERCEPTOR_0@ + e + INTERCEPTOR_1@ && js_unescape(e)
                == Some(pattern),
{
    lemma_js_escape_round_trip(pattern);
    let e = js_escape(pattern);
    assert(interceptor_script(pattern) == INTERCEPTOR_0@ + e + INTERCEPTOR_1@ && js_unescape(e)
        == Some(pattern));
}

/// Law: a snapshot's root selector enters the script only as the body of a
/// single-quoted literal that reads back as the selector.
pub proof fn lemma_snapshot_script_quotes_selector(selector: Seq<char>, include_hidden: bool)
    ensures
        exists|e: Seq<char>|
            #![trigger js_unescape(e)]
            snapshot_script(Some(selector), include_hidden) == SNAPSHOT_0@ + snapshot_hidden_check(
                include_hidden,
            ) + SNAPSHOT_1@ + ("document.querySelector('"@ + e + "') || document.body"@)
                + SNAPSHOT_2@ && js_unescape(e) == Some(selector),
{
    lemma_js_escape_round_trip(selector);
    let e = js_escape(selector);
    assert(snapshot_script(Some(selector), include_hidden) == SNAPSHOT_0@ + snapshot_hidden_check(
        include_hidden,
    ) + SNAPSHOT_1@ + ("document.querySelector('"@ + e + "') || document.body"@) + SNAPSHOT_2@
        && js_unescape(e) == Some(selector));
}

/// Law: the selector enters the wait script, in the query and in the
/// timeout error, only as the body of a single-quoted literal that reads
/// back as the selector; the timeout is written in decimal.
pub proof fn lemma_wait_for_selector_script_quotes_selector(
    selector: Seq<char>,
    timeout_ms: nat,
    visible: bool,
)
    ensures
        exists|e: Seq<char>|
            #![trigger js_unescape(e)]
            wait_for_selector_script(selector, timeout_ms, visible) == WAIT_SELECTOR_0@
                + decimal_nat(timeout_ms) + WAIT_SELECTOR_1@ + e + WAIT_SELECTOR_2@ + visible_check(
                visible,
            ) + WAIT_SELECTOR_3@ + e + WAIT_SELECTOR_4@ && js_unescape(e) == Some(selector),
{
    lemma_js_escape_round_trip(selector);
    let e = js_escape(selector);
    assert(wait_for_selector_script(selector, timeout_ms, visible) == WAIT_SELECTOR_0@ + decimal_nat(
        timeout_ms,
    ) + WAIT_SELECTOR_1@ + e + WAIT_SELECTOR_2@ + visible_check(visible) + WAIT_SELECTOR_3@ + e
        + WAIT_SELECTOR_4@ && js_unescape(e) == Some(selector));
}

} // verus!
