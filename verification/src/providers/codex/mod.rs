//! The Codex provider: credentials, model catalog and completed responses.

pub mod auth;
pub mod model;
pub mod sse;

use vstd::prelude::*;

verus! {

/// The endpoints of the Codex provider.
#[derive(Debug)]
pub struct CodexConfig {
    /// Base address of requests.
    pub api_base: String,
    /// Address at which credentials are refreshed.
    pub refresh_url: String,
}

impl Default for CodexConfig {
    fn default() -> (config: Self)
        ensures
            config.api_base@ == "https://chatgpt.com/backend-api/codex"@,
            config.refresh_url@ == "https://auth.openai.com/oauth/token"@,
    {
        CodexConfig {
            api_base: "https://chatgpt.com/backend-api/codex".to_owned(),
            refresh_url: "https://auth.openai.com/oauth/token".to_owned(),
        }
    }
}

} // verus!
