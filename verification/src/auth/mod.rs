//! Authentication: credentials per server and the choice of strategy.

pub mod api_key;
pub mod oauth;
pub mod session;
pub mod token_store;

use vstd::prelude::*;

use crate::text::owned;

verus! {

/// How the client authenticates.
#[derive(Debug)]
pub enum AuthStrategy {
    /// Present this API key to every server.
    ApiKey(String),
    /// Run the OAuth 2.1 + PKCE flow.
    OAuth,
}

/// Authentication settings from the command line.
#[derive(Debug)]
pub struct AuthManager {
    /// API key from --api-key or GPS_TRUST_API_KEY.
    api_key: Option<String>,
    /// Whether OAuth 2.1 is enabled (default: true).
    oauth: bool,
    /// User MCP server URL.
    user_url: String,
    /// Agent MCP server URL.
    agent_url: String,
}

/// The message when neither an API key nor OAuth is available.
pub open spec fn no_method_message() -> Seq<char> {
    "No authentication method available. Use --api-key <key> or run without --no-oauth for OAuth login"@
}

impl AuthManager {
    pub fn new(api_key: Option<String>, oauth: bool, user_url: String, agent_url: String) -> (r: Self)
        ensures
            r.api_key() == api_key,
            r.oauth_enabled() == oauth,
            r.user_url_view() == user_url@,
            r.agent_url_view() == agent_url@,
    {
        AuthManager { api_key, oauth, user_url, agent_url }
    }

    pub closed spec fn api_key(&self) -> Option<String> {
        self.api_key
    }

    pub closed spec fn oauth_enabled(&self) -> bool {
        self.oauth
    }

    pub closed spec fn user_url_view(&self) -> Seq<char> {
        self.user_url@
    }

    pub closed spec fn agent_url_view(&self) -> Seq<char> {
        self.agent_url@
    }

    /// The strategy to use: an API key when one was given (whatever the
    /// OAuth setting), else OAuth when enabled, else an error.
    pub fn strategy(&self) -> (r: Result<AuthStrategy, String>)
        ensures
            match self.api_key() {
                Some(k) => r matches Ok(AuthStrategy::ApiKey(x)) && x@ == k@,
                None => if self.oauth_enabled() {
                    r matches Ok(AuthStrategy::OAuth)
                } else {
                    r matches Err(m) && m@ == no_method_message()
                },
            },
    {
        match &self.api_key {
            Some(key) => Ok(AuthStrategy::ApiKey(key.clone())),
            None => {
                if self.oauth {
                    Ok(AuthStrategy::OAuth)
                } else {
                    Err(
                        owned(
                            "No authentication method available. Use --api-key <key> or run without --no-oauth for OAuth login",
                        ),
                    )
                }
            },
        }
    }

    /// The User server URL.
    pub fn user_url(&self) -> (r: &str)
        ensures
            r@ == self.user_url_view(),
    {
        self.user_url.as_str()
    }

    /// The Agent server URL.
    pub fn agent_url(&self) -> (r: &str)
        ensures
            r@ == self.agent_url_view(),
    {
        self.agent_url.as_str()
    }
}

} // verus!
