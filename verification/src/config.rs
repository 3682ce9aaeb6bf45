//! Settings of the language-model client, as kept in
//! `~/.opencli-rs/config.json`.

use vstd::prelude::*;
use vstd::string::*;
use crate::auth::{home_file_of, home_file_path, PathStyle};

verus! {

/// The whole configuration file.
#[derive(Debug)]
pub struct Config {
    /// Settings of the language-model client.
    pub llm: LlmConfig,
}

/// Settings of the language-model client; each may be missing.
#[derive(Debug)]
pub struct LlmConfig {
    /// API endpoint URL (e.g., "https://api.anthropic.com/v1/messages", "https://api.openai.com/v1/chat/completions")
    pub endpoint: Option<String>,
    /// API key
    pub apikey: Option<String>,
    /// Model name (e.g., "gpt-4o")
    pub modelname: Option<String>,
}

impl Default for LlmConfig {
    fn default() -> (r: Self)
        ensures
            r.endpoint is None && r.apikey is None && r.modelname is None,
    {
        LlmConfig { endpoint: None, apikey: None, modelname: None }
    }
}

impl Default for Config {
    fn default() -> (r: Self)
        ensures
            r.llm.endpoint is None && r.llm.apikey is None && r.llm.modelname is None,
    {
        Config { llm: LlmConfig::default() }
    }
}

impl LlmConfig {
    /// Whether endpoint, key and model are all set.
    pub fn is_configured(&self) -> (b: bool)
        ensures
            b == (self.endpoint is Some && self.apikey is Some && self.modelname is Some),
    {
        self.endpoint.is_some() && self.apikey.is_some() && self.modelname.is_some()
    }
}

/// Get the config file path under the home directory `home`:
/// `<home>/.opencli-rs/config.json` with the platform's separators.
pub fn config_path(home: &str, style: PathStyle) -> (r: Option<String>)
    ensures
        r matches Some(p) ==> home_file_of(home@, ".opencli-rs"@, "config.json"@, style) == Some(p@),
        r is None ==> home_file_of(home@, ".opencli-rs"@, "config.json"@, style) is None,
{
    proof {
        reveal_strlit(".opencli-rs");
        reveal_strlit("config.json");
    }
    home_file_path(home, ".opencli-rs", "config.json", style)
}

} // verus!
