//! The login status line.

use vstd::prelude::*;

use crate::text::{append, owned};

verus! {

/// Where authentication stands.
#[derive(Debug)]
pub enum LoginStatus {
    Authenticating,
    OAuthBrowser,
    Success(String),
    Error(String),
}

/// The text shown for a login status.
pub open spec fn login_text(status: LoginStatus) -> Seq<char> {
    match status {
        LoginStatus::Authenticating => "Authenticating..."@,
        LoginStatus::OAuthBrowser => "Opening browser for OAuth login..."@,
        LoginStatus::Success(name) => "Authenticated as "@ + name@,
        LoginStatus::Error(msg) => "Auth error: "@ + msg@,
    }
}

/// The text of the login status line.
pub fn login_message(status: &LoginStatus) -> (r: String)
    ensures
        r@ == login_text(*status),
{
    match status {
        LoginStatus::Authenticating => owned("Authenticating..."),
        LoginStatus::OAuthBrowser => owned("Opening browser for OAuth login..."),
        LoginStatus::Success(name) => {
            let mut s = owned("Authenticated as ");
            append(&mut s, name.as_str());
            s
        },
        LoginStatus::Error(msg) => {
            let mut s = owned("Auth error: ");
            append(&mut s, msg.as_str());
            s
        },
    }
}

} // verus!
