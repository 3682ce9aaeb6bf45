//! The language-model exchange that turns captured page data into a YAML
//! adapter: which API is spoken and how to authenticate, the message sent,
//! and how the reply is read and cleaned. The HTTP exchange and the JSON
//! encoding happen outside.

use vstd::prelude::*;
use vstd::string::*;
use crate::config::LlmConfig;
use crate::error::{config_error, http_error, is_config_error, is_http_error, CliError};
use crate::text::{
    chars_of, contains_seq, contains_str, has_prefix, has_suffix, is_unicode_whitespace,
    range_has_prefix, range_has_suffix, string_of, trim, trim_bounds, trim_end_by, trim_start_by,
    CharClass,
};

verus! {

/// The system prompt of adapter generation: how to read captured page data
/// and what YAML adapter to write from it.
pub const SYSTEM_PROMPT: &'static str = r#"# opencli-rs Adapter Generator — AI System Prompt

You are an expert at analyzing website API structures and generating opencli-rs YAML adapter configurations. You receive raw captured data from a web page (network requests with response bodies, Performance API entries, page metadata, framework detection) and produce a precise, working YAML adapter.

## Input Format

You will receive a JSON object with these fields:

```json
{
  "meta": {
    "url": "https://example.com/search?q=test",
    "title": "Page Title"
  },
  "framework": {
    "vue3": false, "pinia": false, "react": true, "nextjs": false, "nuxt": false
  },
  "globals": {
    "__INITIAL_STATE__": "...(JSON string)...",
    "__NEXT_DATA__": "..."
  },
  "intercepted": [
    {
      "url": "https://api.example.com/v1/search?q=test&limit=20",
      "method": "GET",
      "status": 200,
      "body": "...(JSON string of full response)..."
    }
  ],
  "perf_urls": [
    "https://api.example.com/v1/search?q=test&limit=20",
    "https://api.example.com/v1/user/info"
  ]
}
```

## Your Task

1. **Identify the primary API endpoint** — The one that returns the main data the user wants (articles, posts, products, videos, etc.). Look for endpoints with:
   - Arrays of objects in the response (items/list/data)
   - Fields like title, name, content, author, views, likes, score
   - Search/pagination parameters in the URL (q=, query=, keyword=, page=, limit=, cursor=)

2. **Analyze the response structure** — Map the exact JSON path to the items array and each useful field:
   - Find the items array path (e.g., `data`, `data.list`, `data.items`, `result.data`)
   - For each item, identify useful fields with their exact path (e.g., `item.result_model.article_info.title`)
   - Note the response status convention (e.g., `err_no === 0` means success for Chinese sites)

3. **Determine the authentication strategy**:
   - `public` — API works without cookies (rare for Chinese sites)
   - `cookie` — API needs `credentials: 'include'` (most common)
   - `header` — API needs CSRF token or Bearer header
   - `intercept` — API has complex signing (use Pinia/Vuex store action bridge)

4. **Generate the YAML adapter** following the exact format below.

## Output Format — YAML Adapter

```yaml
site: {site_name}
name: {command_name}
description: {Chinese description of what this does}
domain: {hostname}
strategy: cookie
browser: true

args:
  {arg_name}:
    type: str
    required: true
    positional: true
    description: {description}
  limit:
    type: int
    default: 20

columns: [{column1}, {column2}, ...]

pipeline:
  - navigate:
      url: "https://{domain}/{path}?{query with ${{ args.xxx }} templates}"
      settleMs: 5000
  - evaluate: |
      (async () => {
        // IMPORTANT: Use Performance API to find the actual API URL
        // (it contains auth params like aid, uuid, spider that we can't hardcode)
        const searchUrl = performance.getEntriesByType('resource')
          .map(e => e.name)
          .find(u => u.includes('{api_path_pattern}'));
        if (!searchUrl) return [];

        const resp = await fetch(searchUrl, { credentials: 'include' });
        const json = await resp.json();
        {// Check error code if applicable}

        return (json.{item_path} || []).slice(0, args.limit || 20).map((item, i) => ({
          rank: i + 1,
          {field}: {item.exact.path.to.field},
          ...
        }));
      })()
```

## Critical Rules

### URL Handling
- **NEVER hardcode full API URLs with auth tokens** (aid=, uuid=, spider=, verifyFp=, etc.)
- **USE Performance API** to find the actual URL: `performance.getEntriesByType('resource').find(u => u.includes('api_path_keyword'))`
- **Template user parameters**: `${{ args.keyword | urlencode }}`, `${{ args.limit | default(20) }}`
- **Navigate URL should use templates**: `https://example.com/search?query=${{ args.keyword | urlencode }}`

### Data Access
- **Use exact nested paths**: `item.result_model.article_info.title`, not `item.title`
- **Always use optional chaining in JS**: `item.result_model?.article_info?.title || ''`
- **Strip HTML from highlighted fields**: `.replace(/<[^>]+>/g, '')`
- **Handle missing data**: always provide fallback with `|| ''` or `|| 0`

### evaluate Block
- **args is available** as a JS object: `args.keyword`, `args.limit`
- **data is available** as the previous step's result
- **Return an array of flat objects** — don't return nested structures
- **Do the field mapping inside evaluate** — the map step in pipeline is optional for simple cases

### Chinese API Conventions
- Check `json.err_no === 0` or `json.code === 0` for success
- `data` field usually contains the actual data
- `cursor`/`has_more` for pagination (not always page-based)
- Common patterns: `/api/v1/`, `/x/`, `/web-interface/`

### Strategy-Specific Patterns

**Cookie (most common)**:
```yaml
pipeline:
  - navigate: "https://domain.com/page"
  - evaluate: |
      (async () => {
        const resp = await fetch('url', { credentials: 'include' });
        ...
      })()
```

**Pinia/Vuex Store (intercept strategy)**:
```yaml
pipeline:
  - navigate: "https://domain.com/page"
  - wait: 3
  - tap:
      store: storeName
      action: actionName
      capture: api_url_pattern
      select: data.items
      timeout: 8
```

**Public API (no browser needed)**:
```yaml
strategy: public
browser: false
pipeline:
  - fetch:
      url: "https://api.example.com/data?limit=${{ args.limit }}"
  - select: data.items
  - map:
      title: "${{ item.title }}"
```

## Field Selection Priority

Choose 4-8 columns in this priority:
1. **rank** — always add as `i + 1`
2. **title/name** — the main text field
3. **author/user** — who created it
4. **score metrics** — views, likes, stars, comments
5. **time/date** — creation or publish time
6. **url/link** — link to the item
7. **category/tag** — classification
8. **description/summary** — brief content

## Examples

### Input: Juejin search API response
```json
{
  "data": [{
    "result_type": 2,
    "result_model": {
      "article_info": {
        "article_id": "123",
        "title": "Rust Guide",
        "view_count": 5000,
        "digg_count": 42
      },
      "author_user_info": {
        "user_name": "alice"
      }
    }
  }]
}
```

### Output:
```yaml
pipeline:
  - navigate:
      url: "https://juejin.cn/search?query=${{ args.keyword | urlencode }}&type=0"
      settleMs: 5000
  - evaluate: |
      (async () => {
        const searchUrl = performance.getEntriesByType('resource')
          .map(e => e.name)
          .find(u => u.includes('search_api') && u.includes('query='));
        if (!searchUrl) return [];
        const resp = await fetch(searchUrl, { credentials: 'include' });
        const json = await resp.json();
        if (json.err_no !== 0) return [];
        return (json.data || []).slice(0, args.limit || 20).map((item, i) => {
          const info = item.result_model?.article_info || {};
          const author = item.result_model?.author_user_info || {};
          return {
            rank: i + 1,
            title: (info.title || '').replace(/<[^>]+>/g, ''),
            author: author.user_name || '',
            views: info.view_count || 0,
            likes: info.digg_count || 0,
            url: info.article_id ? 'https://juejin.cn/post/' + info.article_id : '',
          };
        });
      })()
```

## What NOT to Do

- ❌ Hardcode API URLs with volatile params (aid=, uuid=, timestamp=, nonce=)
- ❌ Use `item.title` when the actual path is `item.result_model.article_info.title`
- ❌ Return raw nested objects — always flatten in evaluate
- ❌ Use `window.location.href = ...` inside evaluate (breaks CDP)
- ❌ Add `map` step that conflicts with evaluate's return format
- ❌ Guess field names — only use fields you've seen in the actual response
- ❌ Ignore error codes — always check `err_no`/`code` before processing data
"#;

/// The message when no endpoint is configured.
pub const ENDPOINT_MISSING: &'static str = "LLM endpoint not configured. Set it in ~/.opencli-rs/config.json";

/// The message when no API key is configured.
pub const APIKEY_MISSING: &'static str = "LLM API key not configured. Set it in ~/.opencli-rs/config.json";

/// The message when no model is configured.
pub const MODEL_MISSING: &'static str = "LLM model name not configured. Set it in ~/.opencli-rs/config.json";

/// The message when the reply has neither `choices` nor `content`.
pub const UNEXPECTED_REPLY: &'static str = "Unexpected LLM response format";

/// The message when the cleaned reply is empty.
pub const EMPTY_REPLY: &'static str = "LLM returned empty content";

/// How many characters of an error reply's body the error message keeps.
pub const ERROR_BODY_CHARS: usize = 500;

/// The most tokens the model may answer with.
pub const MAX_TOKENS: u32 = 4096;

/// How long the HTTP exchange may take, in seconds.
pub const REQUEST_TIMEOUT_SECS: u64 = 300;

/// Which API an endpoint speaks.
#[derive(Debug, Clone, Copy, PartialEq, Eq)]
pub enum ApiKind {
    /// The Anthropic Messages API: the system prompt is a field of its own
    /// and the key goes in `x-api-key`.
    Anthropic,
    /// An OpenAI-compatible chat API: the system prompt is the first message
    /// and the key is a bearer token.
    OpenAiCompatible,
}

/// Everything the HTTP exchange needs besides the system prompt.
#[derive(Debug)]
pub struct LlmRequest {
    /// Where the request goes.
    pub endpoint: String,
    /// The model asked for.
    pub model: String,
    /// The API the endpoint speaks.
    pub api: ApiKind,
    /// The name of the header that carries the key.
    pub auth_header: String,
    /// The value of that header.
    pub auth_value: String,
    /// The top-level `system` field of the body: the system prompt for the
    /// Anthropic API, absent for the others.
    pub system: Option<String>,
    /// The `messages` of the body, in order.
    pub messages: Vec<ChatMessage>,
    /// The `max_tokens` of the body.
    pub max_tokens: u32,
}

/// One entry of the `messages` list of a request body.
#[derive(Debug)]
pub struct ChatMessage {
    /// `system` or `user`.
    pub role: String,
    /// The text of the message.
    pub content: String,
}

/// Whether `m` has role `role` and content `content`.
pub open spec fn is_message(m: ChatMessage, role: Seq<char>, content: Seq<char>) -> bool {
    m.role@ == role && m.content@ == content
}

/// The API of an endpoint: Anthropic's where its URL contains `anthropic`.
pub open spec fn api_kind_of(endpoint: Seq<char>) -> ApiKind {
    if contains_seq(endpoint, "anthropic"@) {
        ApiKind::Anthropic
    } else {
        ApiKind::OpenAiCompatible
    }
}

/// The user message for site `site`, goal `goal` and the captured page data
/// as pretty-printed JSON `captured_json`.
pub open spec fn user_message_of(captured_json: Seq<char>, goal: Seq<char>, site: Seq<char>) -> Seq<
    char,
> {
    "Generate an opencli-rs YAML adapter for site \""@ + site + "\" with goal \""@ + goal
        + "\".\n\nHere is the captured data from the web page:\n\n```json\n"@ + captured_json
        + "\n```\n\nReturn ONLY the YAML content, no explanation, no markdown fencing. Just the raw YAML."@
}

/// Whether `r` is the request for endpoint `endpoint`, key `key`, model
/// `model` and the user message `message`: for the Anthropic API the key in
/// `x-api-key`, the system prompt as the `system` field and the user message
/// as the only message; for the others the key as a bearer token and the
/// system prompt and the user message as the two messages, in that order;
/// for both at most `MAX_TOKENS` tokens.
pub open spec fn is_request_for(
    r: LlmRequest,
    endpoint: Seq<char>,
    key: Seq<char>,
    model: Seq<char>,
    message: Seq<char>,
) -> bool {
    &&& r.endpoint@ == endpoint
    &&& r.model@ == model
    &&& r.api == api_kind_of(endpoint)
    &&& r.max_tokens == MAX_TOKENS
    &&& match api_kind_of(endpoint) {
        ApiKind::Anthropic => {
            &&& r.auth_header@ == "x-api-key"@
            &&& r.auth_value@ == key
            &&& r.system matches Some(sp) && sp@ == SYSTEM_PROMPT@
            &&& r.messages@.len() == 1
            &&& is_message(r.messages@[0], "user"@, message)
        },
        ApiKind::OpenAiCompatible => {
            &&& r.auth_header@ == "Authorization"@
            &&& r.auth_value@ == "Bearer "@ + key
            &&& r.system is None
            &&& r.messages@.len() == 2
            &&& is_message(r.messages@[0], "system"@, SYSTEM_PROMPT@)
            &&& is_message(r.messages@[1], "user"@, message)
        },
    }
}

/// Prepares the request (headers and JSON body parts) that sends captured page data (`captured_json`, the
/// data pretty-printed as JSON) to the model, for site `site` and goal
/// `goal`. Fails with a configuration error naming the first of endpoint,
/// key and model that is not configured.
pub fn prepare_llm_request(config: &LlmConfig, captured_json: &str, goal: &str, site: &str) -> (r:
    Result<LlmRequest, CliError>)
    ensures
        r is Ok <==> (config.endpoint is Some && config.apikey is Some && config.modelname is Some),
        config.endpoint is None ==> (r matches Err(e) && is_config_error(e, ENDPOINT_MISSING@)),
        config.endpoint is Some && config.apikey is None ==> (r matches Err(e) && is_config_error(
            e,
            APIKEY_MISSING@,
        )),
        config.endpoint is Some && config.apikey is Some && config.modelname is None ==> (r matches Err(
            e,
        ) && is_config_error(e, MODEL_MISSING@)),
        config.endpoint is Some && config.apikey is Some && config.modelname is Some ==> (r matches Ok(
            req,
        ) && is_request_for(
            req,
            config.endpoint->0@,
            config.apikey->0@,
            config.modelname->0@,
            user_message_of(captured_json@, goal@, site@),
        )),
{
    let endpoint = match &config.endpoint {
        Some(e) => e,
        None => return Err(config_error(ENDPOINT_MISSING)),
    };
    let apikey = match &config.apikey {
        Some(k) => k,
        None => return Err(config_error(APIKEY_MISSING)),
    };
    let model = match &config.modelname {
        Some(m) => m,
        None => return Err(config_error(MODEL_MISSING)),
    };
    let mut message = String::from_str("Generate an opencli-rs YAML adapter for site \"");
    message.append(site);
    message.append("\" with goal \"");
    message.append(goal);
    message.append("\".\n\nHere is the captured data from the web page:\n\n```json\n");
    message.append(captured_json);
    message.append(
        "\n```\n\nReturn ONLY the YAML content, no explanation, no markdown fencing. Just the raw YAML.",
    );
    let anthropic = contains_str(endpoint.as_str(), "anthropic");
    let mut messages: Vec<ChatMessage> = Vec::new();
    let (api, auth_header, auth_value, system) = if anthropic {
        (ApiKind::Anthropic, String::from_str("x-api-key"), apikey.clone(), Some(
            String::from_str(SYSTEM_PROMPT),
        ))
    } else {
        let mut v = String::from_str("Bearer ");
        v.append(apikey.as_str());
        messages.push(
            ChatMessage { role: String::from_str("system"), content: String::from_str(SYSTEM_PROMPT) },
        );
        (ApiKind::OpenAiCompatible, String::from_str("Authorization"), v, None)
    };
    messages.push(ChatMessage { role: String::from_str("user"), content: message });
    Ok(
        LlmRequest {
            endpoint: endpoint.clone(),
            model: model.clone(),
            api,
            auth_header,
            auth_value,
            system,
            messages,
            max_tokens: MAX_TOKENS,
        },
    )
}

/// At most the first `n` characters of `s`.
pub open spec fn first_chars(s: Seq<char>, n: nat) -> Seq<char> {
    if s.len() <= n {
        s
    } else {
        s.take(n as int)
    }
}

/// The message of the error for a reply with an unsuccessful status.
pub open spec fn api_error_message(status: Seq<char>, body: Seq<char>) -> Seq<char> {
    "LLM API error "@ + status + ": "@ + first_chars(body, ERROR_BODY_CHARS as nat)
}

/// The error for a reply with unsuccessful status `status` (as the status
/// displays, e.g. `404 Not Found`) and body `body`.
pub fn api_error(status: &str, body: &str) -> (e: CliError)
    ensures
        is_http_error(e, api_error_message(status@, body@)),
{
    let v = chars_of(body);
    let n: usize = if v.len() <= ERROR_BODY_CHARS {
        v.len()
    } else {
        ERROR_BODY_CHARS
    };
    let mut message = String::from_str("LLM API error ");
    message.append(status);
    message.append(": ");
    crate::text::push_chars(&mut message, &v, 0, n);
    assert(v@.subrange(0, n as int) =~= first_chars(body@, ERROR_BODY_CHARS as nat));
    CliError::Http { message }
}

/// What was found in a reply's JSON. Each field is `None` where the reply
/// lacks it, and otherwise holds the text found under it, if any.
#[derive(Debug)]
pub struct LlmReply {
    /// The `choices` field (OpenAI format): the text of
    /// `choices[0].message.content`.
    pub choices: Option<Option<String>>,
    /// The `content` field (Anthropic format): the text of `content[0].text`.
    pub content: Option<Option<String>>,
}

/// The text of a reply: that under `choices` where the reply has that field,
/// else that under `content`, and empty where the chosen field holds none;
/// `None` where the reply has neither field.
pub open spec fn reply_text(reply: LlmReply) -> Option<Seq<char>> {
    match reply.choices {
        Some(Some(t)) => Some(t@),
        Some(None) => Some(Seq::empty()),
        None => match reply.content {
            Some(Some(t)) => Some(t@),
            Some(None) => Some(Seq::empty()),
            None => None,
        },
    }
}

/// The reply with markdown fencing removed where present: the trimmed text
/// loses a leading "```yaml" (else a leading "```"), then a trailing "```";
/// the result is trimmed again.
pub open spec fn cleaned_yaml(content: Seq<char>) -> Seq<char> {
    let t = trim(content);
    let unfenced = if has_prefix(t, "```yaml"@) {
        t.skip(7)
    } else if has_prefix(t, "```"@) {
        t.skip(3)
    } else {
        t
    };
    let body = if has_suffix(unfenced, "```"@) {
        unfenced.take(unfenced.len() - 3)
    } else {
        unfenced
    };
    trim(body)
}

/// The reply's text with markdown fencing removed (see `cleaned_yaml`);
/// an HTTP error when nothing is left.
pub fn clean_adapter_yaml(content: &str) -> (r: Result<String, CliError>)
    ensures
        cleaned_yaml(content@).len() == 0 ==> (r matches Err(e) && is_http_error(e, EMPTY_REPLY@)),
        cleaned_yaml(content@).len() > 0 ==> (r matches Ok(y) && y@ == cleaned_yaml(content@)),
{
    let v = chars_of(content);
    let (a, b) = trim_bounds(&v, 0, v.len(), CharClass::Whitespace);
    assert(v@.subrange(0, v.len() as int) =~= v@);
    let ghost t = v@.subrange(a as int, b as int);
    let fence_yaml = chars_of("```yaml");
    let fence = chars_of("```");
    proof {
        reveal_strlit("```yaml");
        reveal_strlit("```");
    }
    let start: usize = if range_has_prefix(&v, a, b, &fence_yaml) {
        assert(v@.subrange(a + 7, b as int) =~= t.skip(7));
        a + 7
    } else if range_has_prefix(&v, a, b, &fence) {
        assert(v@.subrange(a + 3, b as int) =~= t.skip(3));
        a + 3
    } else {
        a
    };
    let (c, d) = if range_has_suffix(&v, start, b, &fence) {
        assert(v@.subrange(start as int, b - 3) =~= v@.subrange(start as int, b as int).take(
            b - start - 3,
        ));
        (start, b - 3)
    } else {
        (start, b)
    };
    let (e, f) = trim_bounds(&v, c, d, CharClass::Whitespace);
    if e == f {
        Err(http_error(EMPTY_REPLY))
    } else {
        Ok(string_of(&v, e, f))
    }
}

/// The adapter YAML in a reply: the reply's text (see `reply_text`) with
/// fencing removed. Fails with an HTTP error when the reply has neither field
/// or nothing is left.
pub fn adapter_yaml_from_reply(reply: LlmReply) -> (r: Result<String, CliError>)
    ensures
        reply_text(reply) is None ==> (r matches Err(e) && is_http_error(e, UNEXPECTED_REPLY@)),
        reply_text(reply) matches Some(text) ==> {
            &&& cleaned_yaml(text).len() == 0 ==> (r matches Err(e) && is_http_error(e, EMPTY_REPLY@))
            &&& cleaned_yaml(text).len() > 0 ==> (r matches Ok(y) && y@ == cleaned_yaml(text))
        },
{
    let text = match reply.choices {
        Some(t) => t,
        None => match reply.content {
            Some(t) => t,
            None => return Err(http_error(UNEXPECTED_REPLY)),
        },
    };
    match text {
        Some(t) => clean_adapter_yaml(t.as_str()),
        None => {
            proof {
                reveal_strlit("");
            }
            assert(""@ =~= Seq::<char>::empty());
            clean_adapter_yaml("")
        },
    }
}


// ---------------------------------------------------------------------
// Laws
// ---------------------------------------------------------------------

/// Law: the user message carries its inputs whole. It is 208 fixed
/// characters plus the site, the goal and the captured JSON; the site
/// follows the opening text, the goal follows `" with goal "`, and the
/// captured JSON, every character of it, stands between "```json\n" and
/// "\n```".
pub proof fn lemma_user_message_carries_inputs(captured_json: Seq<char>, goal: Seq<char>, site: Seq<
    char,
>)
    ensures
        ({
            let m = user_message_of(captured_json, goal, site);
            let g: int = 59 + site.len() as int;
            let p: int = g + goal.len() + 58;
            &&& m.len() == 208 + site.len() + goal.len() + captured_json.len()
            &&& m.subrange(46, 46 + site.len() as int) == site
            &&& m.subrange(g, g + goal.len()) == goal
            &&& m.subrange(p - 8, p) == "```json\n"@
            &&& m.subrange(p, p + captured_json.len()) == captured_json
            &&& m.subrange(p + captured_json.len(), p + captured_json.len() + 4) == "\n```"@
        }),
{
    let a = "Generate an opencli-rs YAML adapter for site \""@;
    let b = "\" with goal \""@;
    let c = "\".\n\nHere is the captured data from the web page:\n\n```json\n"@;
    let d = "\n```\n\nReturn ONLY the YAML content, no explanation, no markdown fencing. Just the raw YAML."@;
    reveal_strlit("Generate an opencli-rs YAML adapter for site \"");
    reveal_strlit("\" with goal \"");
    reveal_strlit("\".\n\nHere is the captured data from the web page:\n\n```json\n");
    reveal_strlit("\n```\n\nReturn ONLY the YAML content, no explanation, no markdown fencing. Just the raw YAML.");
    reveal_strlit("```json\n");
    reveal_strlit("\n```");
    let m = user_message_of(captured_json, goal, site);
    assert(m == a + site + b + goal + c + captured_json + d);
    let g: int = 59 + site.len() as int;
    let p: int = g + goal.len() + 58;
    assert(m.subrange(46, 46 + site.len() as int) =~= site);
    assert(m.subrange(g, g + goal.len()) =~= goal);
    assert(m.subrange(p - 8, p) =~= "```json\n"@);
    assert(m.subrange(p, p + captured_json.len()) =~= captured_json);
    assert(m.subrange(p + captured_json.len(), p + captured_json.len() + 4) =~= "\n```"@);
}

/// Law: an API error names the status and keeps the head of the body: the
/// message is "LLM API error ", the status, ": " and then the body's first
/// characters, the whole body when it has at most `ERROR_BODY_CHARS` of
/// them and exactly that many otherwise.
pub proof fn lemma_api_error_keeps_body_head(status: Seq<char>, body: Seq<char>)
    ensures
        ({
            let m = api_error_message(status, body);
            let n: int = if body.len() <= ERROR_BODY_CHARS { body.len() as int } else {
                ERROR_BODY_CHARS as int
            };
            &&& m.len() == 16 + status.len() + n
            &&& m.take(14) == "LLM API error "@
            &&& m.subrange(14, 14 + status.len() as int) == status
            &&& m.subrange(14 + status.len() as int, 16 + status.len() as int) == ": "@
            &&& m.skip(16 + status.len() as int) == body.take(n)
        }),
{
    reveal_strlit("LLM API error ");
    reveal_strlit(": ");
    let m = api_error_message(status, body);
    let n: int = if body.len() <= ERROR_BODY_CHARS { body.len() as int } else {
        ERROR_BODY_CHARS as int
    };
    let h = first_chars(body, ERROR_BODY_CHARS as nat);
    assert(h =~= body.take(n));
    assert(m == "LLM API error "@ + status + ": "@ + h);
    assert(m.take(14) =~= "LLM API error "@);
    assert(m.subrange(14, 14 + status.len() as int) =~= status);
    assert(m.subrange(14 + status.len() as int, 16 + status.len() as int) =~= ": "@);
    assert(m.skip(16 + status.len() as int) =~= h);
}

proof fn lemma_yaml_fence_has_fence(s: Seq<char>)
    ensures
        has_prefix(s, "```yaml"@) ==> has_prefix(s, "```"@),
{
    reveal_strlit("```yaml");
    reveal_strlit("```");
    if has_prefix(s, "```yaml"@) {
        assert(s.take(3) =~= s.take(7).take(3));
        assert("```yaml"@.take(3) =~= "```"@);
    }
}

/// Law: cleaning never drops inner content: a reply that is already trimmed
/// and neither begins nor ends with a fence comes back exactly as it is,
/// whatever its length.
pub proof fn lemma_cleaning_keeps_unfenced_text(s: Seq<char>)
    requires
        trim(s) == s,
        !has_prefix(s, "```"@),
        !has_suffix(s, "```"@),
    ensures
        cleaned_yaml(s) == s,
{
    lemma_yaml_fence_has_fence(s);
}

/// Law: a reply fenced as "```yaml\n" + y + "\n```", with `y` trimmed and not
/// empty, cleans to `y`, whatever its length.
pub proof fn lemma_cleaning_removes_yaml_fence(y: Seq<char>)
    requires
        trim(y) == y,
        y.len() > 0,
    ensures
        cleaned_yaml("```yaml\n"@ + y + "\n```"@) == y,
{
    reveal_strlit("```yaml\n");
    reveal_strlit("\n```");
    reveal_strlit("```yaml");
    reveal_strlit("```");
    let f = "```yaml\n"@ + y + "\n```"@;
    crate::text::lemma_trim_by_ends(y, CharClass::Whitespace);
    assert(!is_unicode_whitespace(f[0]));
    assert(trim_start_by(f, CharClass::Whitespace) == f);
    assert(f.last() == '`');
    assert(trim_end_by(f, CharClass::Whitespace) == f);
    assert(trim(f) == f);
    assert(f.take(7) =~= "```yaml"@);
    let u = f.skip(7);
    assert(u =~= seq!['\n'] + y + "\n```"@);
    assert(u.skip(u.len() - 3) =~= "```"@);
    let body = u.take(u.len() - 3);
    assert(body =~= seq!['\n'] + y + seq!['\n']);
    assert(body.skip(1) =~= y + seq!['\n']);
    assert(trim_start_by(body, CharClass::Whitespace) == trim_start_by(body.skip(1), CharClass::Whitespace));
    assert((y + seq!['\n'])[0] == y[0]);
    assert(trim_start_by(y + seq!['\n'], CharClass::Whitespace) == y + seq!['\n']);
    assert((y + seq!['\n']).drop_last() =~= y);
    assert(trim_end_by(y + seq!['\n'], CharClass::Whitespace) == trim_end_by(y, CharClass::Whitespace));
    assert(trim_end_by(y, CharClass::Whitespace) == y);
}

} // verus!
