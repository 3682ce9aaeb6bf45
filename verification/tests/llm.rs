use opencli_rs::config::LlmConfig;
use opencli_rs::error::CliError;
use opencli_rs::llm::{
    adapter_yaml_from_reply, api_error, clean_adapter_yaml, prepare_llm_request, ApiKind, LlmReply,
    SYSTEM_PROMPT,
};

fn config(endpoint: Option<&str>, key: Option<&str>, model: Option<&str>) -> LlmConfig {
    LlmConfig {
        endpoint: endpoint.map(|s| s.to_string()),
        apikey: key.map(|s| s.to_string()),
        modelname: model.map(|s| s.to_string()),
    }
}

fn config_message(r: Result<opencli_rs::llm::LlmRequest, CliError>) -> String {
    match r {
        Err(CliError::Config { message, suggestions }) => {
            assert!(suggestions.is_empty());
            message
        }
        other => panic!("unexpected {:?}", other),
    }
}

#[test]
fn missing_settings_are_reported_in_order() {
    assert_eq!(
        config_message(prepare_llm_request(&config(None, None, None), "{}", "g", "s")),
        "LLM endpoint not configured. Set it in ~/.opencli-rs/config.json"
    );
    assert_eq!(
        config_message(prepare_llm_request(&config(Some("e"), None, Some("m")), "{}", "g", "s")),
        "LLM API key not configured. Set it in ~/.opencli-rs/config.json"
    );
    assert_eq!(
        config_message(prepare_llm_request(&config(Some("e"), Some("k"), None), "{}", "g", "s")),
        "LLM model name not configured. Set it in ~/.opencli-rs/config.json"
    );
}

#[test]
fn anthropic_endpoint_uses_api_key_header() {
    let c = config(Some("https://api.anthropic.com/v1/messages"), Some("sk"), Some("model-a"));
    let r = prepare_llm_request(&c, "{\n  \"a\": 1\n}", "hot posts", "example").unwrap();
    assert_eq!(r.api, ApiKind::Anthropic);
    assert_eq!(r.auth_header, "x-api-key");
    assert_eq!(r.auth_value, "sk");
    assert_eq!(r.model, "model-a");
    assert_eq!(r.endpoint, "https://api.anthropic.com/v1/messages");
    assert_eq!(r.max_tokens, 4096);
    assert_eq!(r.system.as_deref(), Some(SYSTEM_PROMPT));
    assert_eq!(r.messages.len(), 1);
    assert_eq!(r.messages[0].role, "user");
    assert_eq!(
        r.messages[0].content,
        "Generate an opencli-rs YAML adapter for site \"example\" with goal \"hot posts\".\n\nHere is the captured data from the web page:\n\n```json\n{\n  \"a\": 1\n}\n```\n\nReturn ONLY the YAML content, no explanation, no markdown fencing. Just the raw YAML."
    );
}

#[test]
fn other_endpoints_use_bearer_token() {
    let c = config(Some("http://localhost:8080/v1/chat/completions"), Some("k1"), Some("m"));
    let r = prepare_llm_request(&c, "null", "g", "s").unwrap();
    assert_eq!(r.api, ApiKind::OpenAiCompatible);
    assert_eq!(r.auth_header, "Authorization");
    assert_eq!(r.auth_value, "Bearer k1");
    assert_eq!(r.max_tokens, 4096);
    assert!(r.system.is_none());
    assert_eq!(r.messages.len(), 2);
    assert_eq!(r.messages[0].role, "system");
    assert_eq!(r.messages[0].content, SYSTEM_PROMPT);
    assert_eq!(r.messages[1].role, "user");
    assert!(r.messages[1].content.starts_with("Generate an opencli-rs YAML adapter for site \"s\" with goal \"g\"."));
    assert!(r.messages[1].content.contains("```json\nnull\n```"));
}

#[test]
fn api_error_keeps_500_characters_of_body() {
    let body = "é".repeat(600);
    match api_error("500 Internal Server Error", &body) {
        CliError::Http { message } => {
            assert_eq!(message, format!("LLM API error 500 Internal Server Error: {}", "é".repeat(500)))
        }
        other => panic!("unexpected {:?}", other),
    }
    match api_error("404 Not Found", "nope") {
        CliError::Http { message } => assert_eq!(message, "LLM API error 404 Not Found: nope"),
        other => panic!("unexpected {:?}", other),
    }
}

#[test]
fn fencing_is_removed() {
    assert_eq!(clean_adapter_yaml("```yaml\nsite: x\n```").unwrap(), "site: x");
    assert_eq!(clean_adapter_yaml("  ```\nsite: x\n```  ").unwrap(), "site: x");
    assert_eq!(clean_adapter_yaml("site: x").unwrap(), "site: x");
    assert_eq!(clean_adapter_yaml("site: x\n```").unwrap(), "site: x");
}

#[test]
fn opening_fence_without_closing_one_is_removed() {
    assert_eq!(clean_adapter_yaml("```yaml\nsite: x").unwrap(), "site: x");
    assert_eq!(clean_adapter_yaml("```yaml\nname: a").unwrap(), "name: a");
    assert_eq!(clean_adapter_yaml("```\nname: a").unwrap(), "name: a");
}

#[test]
fn empty_reply_is_an_error() {
    for text in ["", "   ", "```yaml\n```", "``````"] {
        match clean_adapter_yaml(text) {
            Err(CliError::Http { message }) => assert_eq!(message, "LLM returned empty content"),
            other => panic!("unexpected {:?} for {:?}", other, text),
        }
    }
}

fn reply(choices: Option<Option<&str>>, content: Option<Option<&str>>) -> LlmReply {
    LlmReply {
        choices: choices.map(|t| t.map(str::to_string)),
        content: content.map(|t| t.map(str::to_string)),
    }
}

#[test]
fn reply_formats() {
    assert_eq!(adapter_yaml_from_reply(reply(Some(Some("name: a")), None)).unwrap(), "name: a");
    assert_eq!(
        adapter_yaml_from_reply(reply(None, Some(Some("```\nname: b\n```")))).unwrap(),
        "name: b"
    );
    assert_eq!(
        adapter_yaml_from_reply(reply(Some(Some("name: c")), Some(Some("name: d")))).unwrap(),
        "name: c"
    );
    match adapter_yaml_from_reply(reply(Some(None), Some(Some("name: d")))) {
        Err(CliError::Http { message }) => assert_eq!(message, "LLM returned empty content"),
        other => panic!("unexpected {:?}", other),
    }
    match adapter_yaml_from_reply(reply(None, None)) {
        Err(CliError::Http { message }) => assert_eq!(message, "Unexpected LLM response format"),
        other => panic!("unexpected {:?}", other),
    }
}

fn expected_clean(content: &str) -> String {
    let t = content.trim();
    let unfenced = t.strip_prefix("```yaml").or_else(|| t.strip_prefix("```")).unwrap_or(t);
    unfenced.strip_suffix("```").unwrap_or(unfenced).trim().to_string()
}

#[test]
fn cleaning_removes_whichever_fence_is_present() {
    let inputs = [
        "", " ", "```", "````", "```yaml", "```yaml```", "``` a ```", "```yaml\na\n```\n",
        "\u{a0}```json\n{}\n```", "a```", "```a", " ```yaml  x  ``` ", "\u{1680}x\u{205f}",
    ];
    for c in inputs {
        let want = expected_clean(c);
        match clean_adapter_yaml(c) {
            Ok(y) => assert_eq!(y, want, "{:?}", c),
            Err(_) => assert!(want.is_empty(), "{:?}", c),
        }
    }
}
