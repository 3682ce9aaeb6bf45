//! The last step of AI-powered adapter generation: the generated YAML gets
//! the detected site name, and the command name is read from it.

use vstd::prelude::*;
use vstd::string::*;
use crate::text::{
    chars_of, find_line_with_prefix, first_with_prefix, lines, replace_line_with_prefix,
    replace_line_with_prefix_vec, string_of, trim, trim_bounds, trim_by, trim_end_by,
    trim_start_by, CharClass,
};

verus! {

/// How long to let a page settle after navigating to it, in milliseconds.
pub const CAPTURE_SETTLE_MS: u64 = 5000;

/// How many times to scroll a page to trigger lazy loading.
pub const CAPTURE_SCROLLS: u32 = 3;

/// The pause after each of those scrolls, in milliseconds.
pub const CAPTURE_SCROLL_DELAY_MS: u64 = 1500;

/// How long to wait after scrolling before collecting, in milliseconds.
pub const CAPTURE_AFTER_SCROLL_MS: u64 = 2000;

/// The script that collects, in one evaluation, the page's API URLs (from
/// performance entries, deduplicated by path), the JSON bodies of up to 20 of
/// them, page metadata, detected frameworks and global state variables.
pub const CAPTURE_PAGE_DATA_SCRIPT: &'static str = r#"(async () => {
        // Get all API URLs from Performance entries
        const perfEntries = performance.getEntriesByType('resource')
            .map(e => e.name)
            .filter(u => {
                const l = u.toLowerCase();
                return (l.includes('/api/') || l.includes('/v1/') || l.includes('/v2/')
                    || l.includes('/v3/') || l.includes('/x/') || l.includes('.json')
                    || l.includes('graphql') || l.includes('search') || l.includes('feed')
                    || l.includes('hot') || l.includes('trending') || l.includes('list')
                    || l.includes('recommend') || l.includes('query'))
                    && !l.endsWith('.js') && !l.endsWith('.css') && !l.endsWith('.png')
                    && !l.endsWith('.jpg') && !l.endsWith('.svg') && !l.endsWith('.woff2');
            });

        // Deduplicate by pathname
        const seen = new Set();
        const uniqueUrls = perfEntries.filter(url => {
            try {
                const key = new URL(url).pathname;
                if (seen.has(key)) return false;
                seen.add(key);
                return true;
            } catch { return false; }
        });

        // Re-fetch each API to get response body
        const apiResponses = [];
        for (const url of uniqueUrls.slice(0, 20)) {
            try {
                const resp = await fetch(url, { credentials: 'include' });
                if (!resp.ok) continue;
                const ct = resp.headers.get('content-type') || '';
                if (!ct.includes('json')) continue;
                const body = await resp.json();
                apiResponses.push({
                    url: url,
                    method: 'GET',
                    status: resp.status,
                    body: JSON.stringify(body).slice(0, 50000),
                });
            } catch {}
        }

        // Page metadata
        const meta = {
            url: location.href,
            title: document.title,
        };

        // Framework detection
        const app = document.querySelector('#app');
        const framework = {};
        try { framework.vue3 = !!app?.__vue_app__; } catch {}
        try { framework.pinia = !!(app?.__vue_app__?.config?.globalProperties?.$pinia); } catch {}
        try { framework.react = !!document.querySelector('[data-reactroot]') || !!window.__REACT_DEVTOOLS_GLOBAL_HOOK__; } catch {}
        try { framework.nextjs = !!window.__NEXT_DATA__; } catch {}
        try { framework.nuxt = !!window.__NUXT__; } catch {}

        // Global state variables
        const globals = {};
        try { if (window.__INITIAL_STATE__) globals.__INITIAL_STATE__ = JSON.stringify(window.__INITIAL_STATE__).slice(0, 30000); } catch {}
        try { if (window.__NEXT_DATA__) globals.__NEXT_DATA__ = JSON.stringify(window.__NEXT_DATA__).slice(0, 30000); } catch {}
        try { if (window.__NUXT__) globals.__NUXT__ = JSON.stringify(window.__NUXT__).slice(0, 30000); } catch {}

        return {
            meta,
            framework,
            globals,
            intercepted: apiResponses,
            perf_urls: uniqueUrls,
        };
    })()"#;

/// The error when capturing gave nothing.
pub fn capture_failed_error() -> (e: crate::error::CliError)
    ensures
        e matches crate::error::CliError::EmptyResult { message } && message@
            == "Failed to capture page data"@,
{
    crate::error::CliError::EmptyResult { message: String::from_str("Failed to capture page data") }
}

/// The YAML with its site field set to `site`: the first line that begins
/// with `site:` becomes `site: <site>`. YAML without such a line is kept.
pub open spec fn with_site(yaml: Seq<char>, site: Seq<char>) -> Seq<char> {
    replace_line_with_prefix(yaml, "site:"@, "site: "@ + site)
}

/// The command name in the YAML: the rest of the first line that begins
/// with `name:`, without surrounding whitespace and then without surrounding
/// double quotes; `goal` when there is no such line.
pub open spec fn command_name(yaml: Seq<char>, goal: Seq<char>) -> Seq<char> {
    match first_with_prefix(lines(yaml), "name:"@) {
        Some(line) => trim_by(trim(line.skip(5)), CharClass::DoubleQuote),
        None => goal,
    }
}

/// The YAML with its `site:` line set to `site` (see `with_site`).
pub fn set_site_line(yaml: &str, site: &str) -> (r: String)
    ensures
        r@ == with_site(yaml@, site@),
{
    let v = chars_of(yaml);
    let site_prefix = chars_of("site:");
    let mut replacement = String::from_str("site: ");
    replacement.append(site);
    replace_line_with_prefix_vec(&v, &site_prefix, replacement.as_str())
}

/// The command name in the YAML, or `goal` (see `command_name`).
pub fn read_command_name(yaml: &str, goal: &str) -> (r: String)
    ensures
        r@ == command_name(yaml@, goal@),
{
    let w = chars_of(yaml);
    let name_prefix = chars_of("name:");
    proof {
        reveal_strlit("name:");
    }
    match find_line_with_prefix(&w, &name_prefix) {
        Some((a, b)) => {
            proof {
                crate::text::lemma_first_with_prefix_has_prefix(lines(w@), name_prefix@);
            }
            let (c, d) = trim_bounds(&w, a + 5, b, CharClass::Whitespace);
            let (e, f) = trim_bounds(&w, c, d, CharClass::DoubleQuote);
            assert(w@.subrange(a + 5, b as int) =~= w@.subrange(a as int, b as int).skip(5));
            string_of(&w, e, f)
        },
        None => String::from_str(goal),
    }
}

/// Ensures the site field of generated YAML matches the detected site name
/// (a model may use a localized name) and extracts the command name from
/// it. Returns the command name and the YAML.
pub fn finish_generated_adapter(yaml: &str, site: &str, goal: &str) -> (r: (String, String))
    ensures
        r.1@ == with_site(yaml@, site@),
        r.0@ == command_name(r.1@, goal@),
{
    let fixed = set_site_line(yaml, site);
    let name = read_command_name(fixed.as_str(), goal);
    (name, fixed)
}


/// Law: the fix-up makes the site field match the site name: where the YAML
/// has a line beginning with `site:`, afterwards its first such line is
/// `site: <site>` (for a site name without line breaks that does not end
/// with a carriage return).
pub proof fn lemma_with_site_sets_site_field(yaml: Seq<char>, site: Seq<char>)
    requires
        first_with_prefix(lines(yaml), "site:"@) is Some,
        forall|i: int| 0 <= i < site.len() ==> #[trigger] site[i] != '\n',
        site.len() > 0 ==> site.last() != '\r',
    ensures
        first_with_prefix(lines(with_site(yaml, site)), "site:"@) == Some("site: "@ + site),
{
    reveal_strlit("site:");
    reveal_strlit("site: ");
    let new = "site: "@ + site;
    assert(new.take(5) =~= "site:"@);
    assert forall|i: int| 0 <= i < new.len() implies #[trigger] new[i] != '\n' by {
        if i >= 6 {
            assert(new[i] == site[i - 6]);
        }
    }
    crate::text::lemma_replace_line_with_prefix_first(yaml, "site:"@, new);
}


/// Law: the fix-up touches nothing but the site line: YAML without a line
/// beginning with `site:` comes back unchanged; otherwise its first such
/// line, standing at the start or right after a line break, is replaced by
/// `site: <site>` and the text before and after it is kept as it was.
pub proof fn lemma_with_site_keeps_rest(yaml: Seq<char>, site: Seq<char>)
    ensures
        first_with_prefix(lines(yaml), "site:"@) is None ==> with_site(yaml, site) == yaml,
        first_with_prefix(lines(yaml), "site:"@) matches Some(line) ==> exists|i: int|
            #![trigger yaml.take(i)]
            0 <= i && i + line.len() <= yaml.len() && (i == 0 || yaml[i - 1] == '\n')
                && yaml.subrange(i, i + line.len()) == line && with_site(yaml, site) == yaml.take(i)
                + ("site: "@ + site) + yaml.skip(i + line.len()),
{
    crate::text::lemma_replace_line_with_prefix_keeps_rest(yaml, "site:"@, "site: "@ + site);
}


/// Law: the command name is the value of the first `name:` line as written:
/// for a line `name: <n>` where `n` has no surrounding whitespace and
/// neither begins nor ends with a double quote, it is `n`, whatever its
/// length; with a quoted value `name: "<n>"` it is `n` without the quotes;
/// without a `name:` line it is the goal.
pub proof fn lemma_command_name_reads_value(yaml: Seq<char>, goal: Seq<char>, n: Seq<char>)
    requires
        trim(n) == n,
        n.len() > 0 ==> n[0] != '"' && n.last() != '"',
    ensures
        first_with_prefix(lines(yaml), "name:"@) == Some("name: "@ + n) ==> command_name(yaml, goal)
            == n,
        first_with_prefix(lines(yaml), "name:"@) == Some("name: \""@ + n + "\""@) ==> command_name(
            yaml,
            goal,
        ) == n,
        first_with_prefix(lines(yaml), "name:"@) is None ==> command_name(yaml, goal) == goal,
{
    reveal_strlit("name: ");
    reveal_strlit("name: \"");
    reveal_strlit("\"");
    let plain = "name: "@ + n;
    let quoted = "name: \""@ + n + "\""@;
    crate::text::lemma_trim_by_ends(n, CharClass::Whitespace);
    // The plain value.
    let v = plain.skip(5);
    assert(v =~= seq![' '] + n);
    assert(trim_start_by(v, CharClass::Whitespace) == trim_start_by(n, CharClass::Whitespace)) by {
        assert(v.skip(1) =~= n);
    }
    assert(trim(v) == n);
    assert(trim_start_by(n, CharClass::DoubleQuote) == n);
    assert(trim_end_by(n, CharClass::DoubleQuote) == n);
    assert(trim_by(n, CharClass::DoubleQuote) == n);
    // The quoted value.
    let q = seq!['"'] + n + seq!['"'];
    let w = quoted.skip(5);
    assert(w =~= seq![' '] + q);
    assert(trim_start_by(w, CharClass::Whitespace) == trim_start_by(q, CharClass::Whitespace)) by {
        assert(w.skip(1) =~= q);
    }
    assert(trim_start_by(q, CharClass::Whitespace) == q);
    assert(trim_end_by(q, CharClass::Whitespace) == q);
    assert(trim(w) == q);
    assert(trim_start_by(q, CharClass::DoubleQuote) == trim_start_by(n + seq!['"'], CharClass::DoubleQuote)) by {
        assert(q.skip(1) =~= n + seq!['"']);
    }
    if n.len() > 0 {
        assert((n + seq!['"'])[0] == n[0]);
        assert(trim_start_by(n + seq!['"'], CharClass::DoubleQuote) == n + seq!['"']);
        assert((n + seq!['"']).drop_last() =~= n);
        assert(trim_end_by(n + seq!['"'], CharClass::DoubleQuote) == trim_end_by(n, CharClass::DoubleQuote));
    } else {
        assert(n + seq!['"'] =~= seq!['"']);
        assert(seq!['"'].skip(1) =~= Seq::<char>::empty());
        assert(trim_start_by(seq!['"'], CharClass::DoubleQuote) == trim_start_by(Seq::<char>::empty(), CharClass::DoubleQuote));
        assert(n =~= Seq::<char>::empty());
    }
    assert(trim_by(q, CharClass::DoubleQuote) == n);
}

} // verus!
