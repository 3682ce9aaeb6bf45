//! The errors the library reports.

use vstd::prelude::*;
use vstd::string::*;

verus! {

/// An error of the command line tool, with the message shown to the user
/// and, where there are any, suggestions on how to fix it.
#[derive(Debug)]
pub enum CliError {
    /// Configuration is missing, unreadable or malformed.
    Config { message: String, suggestions: Vec<String> },
    /// An HTTP exchange failed or answered something unusable.
    Http { message: String },
    /// The browser could not be reached.
    BrowserConnect { message: String, suggestions: Vec<String> },
    /// Something did not happen in time.
    Timeout { message: String },
    /// An operation produced nothing.
    EmptyResult { message: String },
}

/// Whether `e` is a configuration error with message `m` and no suggestions.
pub open spec fn is_config_error(e: CliError, m: Seq<char>) -> bool {
    e matches CliError::Config { message, suggestions } && message@ == m && suggestions@.len() == 0
}

/// Whether `e` is an HTTP error with message `m`.
pub open spec fn is_http_error(e: CliError, m: Seq<char>) -> bool {
    e matches CliError::Http { message } && message@ == m
}

/// A configuration error with this message and no suggestions.
pub fn config_error(message: &str) -> (e: CliError)
    ensures
        is_config_error(e, message@),
{
    CliError::Config { message: String::from_str(message), suggestions: Vec::new() }
}

/// An HTTP error with this message.
pub fn http_error(message: &str) -> (e: CliError)
    ensures
        is_http_error(e, message@),
{
    CliError::Http { message: String::from_str(message) }
}

} // verus!
