//! Verified core of a browser-automation command line tool: the JavaScript
//! snippets it injects into pages, the rules by which it picks tokens, paths
//! and configuration, and the text handling around its language-model calls.

pub mod text;
pub mod dom_helpers;
pub mod error;
pub mod stealth;
pub mod auth;
pub mod config;
pub mod bridge;
pub mod external;
pub mod llm;
pub mod ai_generate;
