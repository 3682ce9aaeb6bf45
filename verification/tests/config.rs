use opencli_rs::auth::PathStyle;
use opencli_rs::config::{config_path, Config, LlmConfig};

#[test]
fn is_configured_needs_all_three() {
    let mut c = LlmConfig::default();
    assert!(!c.is_configured());
    c.endpoint = Some("https://api.openai.com/v1/chat/completions".to_string());
    c.apikey = Some("k".to_string());
    assert!(!c.is_configured());
    c.modelname = Some("gpt-4o".to_string());
    assert!(c.is_configured());
}

#[test]
fn default_config_is_empty() {
    let c = Config::default();
    assert!(c.llm.endpoint.is_none() && c.llm.apikey.is_none() && c.llm.modelname.is_none());
}

#[test]
fn config_path_under_home() {
    assert_eq!(
        config_path("/home/me", PathStyle::Unix).unwrap(),
        "/home/me/.opencli-rs/config.json"
    );
    assert_eq!(
        config_path(r"D:\me", PathStyle::Windows).unwrap(),
        r"D:\me\.opencli-rs\config.json"
    );
}
