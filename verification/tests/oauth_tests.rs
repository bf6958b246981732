use gps_trust_mcp_tui::auth::oauth::{registration_outcome, sub_claim_outcome};
use gps_trust_mcp_tui::auth::oauth::client_id_probe;
use gps_trust_mcp_tui::auth::oauth::{callback_reply, CallbackStep, SUCCESS_PAGE};
use gps_trust_mcp_tui::auth::oauth::{code_exchange_form, refresh_form, REGISTRATION_BODY};
use gps_trust_mcp_tui::mcp::types::ServerRegistry;
use base64::Engine;
use sha2::Digest;

use gps_trust_mcp_tui::auth::oauth::{
    authorize_url, client_id_from_registration, extract_sub_from_jwt, generate_pkce,
    generate_state, html_response, parse_callback, preflight_indicates_valid, preflight_url,
    CallbackOutcome, LoginEvent, LoginStep, OAuthProgress, TokenResponse,
};
use gps_trust_mcp_tui::auth::session::ServerCredentials;
use gps_trust_mcp_tui::auth::token_store::{StoredToken, TokenStore};
use gps_trust_mcp_tui::mcp::types::ServerId;

const JWT: &str = "eyJhbGciOiJub25lIn0.eyJzdWIiOiAiQSM0MiIsICJleHAiOiAxfQ.sig";

#[test]
fn preflight_redirect_means_valid() {
    assert!(preflight_indicates_valid(true, ""));
}

#[test]
fn preflight_invalid_client_body_means_stale() {
    assert!(!preflight_indicates_valid(
        false,
        r#"{"error":"invalid_client","error_description":"unknown client_id"}"#
    ));
}

#[test]
fn preflight_other_non_redirect_response_is_treated_valid() {
    assert!(preflight_indicates_valid(false, "<html>login</html>"));
}

#[test]
fn authorize_url_encodes_redirect_scope_and_resource() {
    let u = authorize_url("cid", "chal", "mcp:read mcp:write", "st8", "https://gt/mcp");
    assert_eq!(
        u,
        "https://auth.aussierobots.com.au/authorize?response_type=code&client_id=cid\
&redirect_uri=http%3A%2F%2F127.0.0.1%3A19876%2Fcallback&code_challenge=chal\
&code_challenge_method=S256&scope=mcp%3Aread+mcp%3Awrite&state=st8\
&resource=https%3A%2F%2Fgt%2Fmcp"
    );
}

#[test]
fn preflight_url_encodes_client_id() {
    let u = preflight_url("a b", "https://gt/mcp");
    assert!(u.starts_with("https://auth.aussierobots.com.au/authorize?response_type=code&client_id=a+b&"));
    assert!(u.ends_with("&state=preflight&resource=https%3A%2F%2Fgt%2Fmcp"));
}

#[test]
fn pkce_challenge_is_sha256_of_verifier() {
    let (verifier, challenge) = generate_pkce();
    assert_eq!(verifier.len(), 128);
    assert!(verifier.chars().all(|c| c.is_ascii_alphanumeric()));
    let digest = sha2::Sha256::digest(verifier.as_bytes());
    let expected = base64::engine::general_purpose::URL_SAFE_NO_PAD.encode(digest);
    assert_eq!(challenge, expected);
    assert_ne!(challenge, verifier);
}

#[test]
fn state_is_32_alphanumerics() {
    let s = generate_state();
    assert_eq!(s.len(), 32);
    assert!(s.chars().all(|c| c.is_ascii_alphanumeric()));
}

#[test]
fn jwt_sub_is_read_from_payload() {
    assert_eq!(extract_sub_from_jwt(JWT).unwrap(), "A#42");
    assert_eq!(extract_sub_from_jwt("a.b").unwrap_err(), "invalid JWT structure");
    assert_eq!(
        extract_sub_from_jwt("a.!!!.c").unwrap_err(),
        "failed to base64-decode JWT payload"
    );
    // "bm90IGpzb24" is base64url for "not json"
    assert_eq!(
        extract_sub_from_jwt("a.bm90IGpzb24.c").unwrap_err(),
        "failed to parse JWT payload JSON"
    );
    // "eyJleHAiOjF9" is base64url for {"exp":1}
    assert_eq!(
        extract_sub_from_jwt("a.eyJleHAiOjF9.c").unwrap_err(),
        "JWT payload missing sub claim"
    );
}

#[test]
fn registration_client_id() {
    assert_eq!(client_id_from_registration(r#"{"client_id":"abc"}"#).unwrap(), "abc");
    assert_eq!(client_id_from_registration("nope").unwrap_err(), "DCR response parse failed");
    assert_eq!(
        client_id_from_registration(r#"{"id":1}"#).unwrap_err(),
        "DCR response missing client_id"
    );
}

#[test]
fn callback_with_code_and_state() {
    let req = "GET /callback?code=xyz&state=s1 HTTP/1.1\r\nHost: x\r\n\r\n";
    assert!(matches!(parse_callback(req, "s1"), CallbackOutcome::Code(c) if c == "xyz"));
}

#[test]
fn callback_from_an_earlier_login_is_stale() {
    let req = "GET /callback?code=xyz&state=old HTTP/1.1\r\n\r\n";
    assert!(matches!(parse_callback(req, "s1"), CallbackOutcome::Stale));
}

#[test]
fn request_without_state_is_not_a_callback() {
    let req = "GET /favicon.ico HTTP/1.1\r\n\r\n";
    assert!(matches!(parse_callback(req, "s1"), CallbackOutcome::NotCallback));
}

#[test]
fn refused_login_reports_error() {
    let req = "GET /callback?error=access_denied&error_description=nope&state=s1 HTTP/1.1\r\n\r\n";
    match parse_callback(req, "s1") {
        CallbackOutcome::Denied { error, description } => {
            assert_eq!(error, "access_denied");
            assert_eq!(description, "nope");
        }
        other => panic!("unexpected {:?}", other),
    }
    let req = "GET /callback?state=s1 HTTP/1.1\r\n\r\n";
    match parse_callback(req, "s1") {
        CallbackOutcome::Denied { error, description } => {
            assert_eq!(error, "unknown");
            assert_eq!(description, "");
        }
        other => panic!("unexpected {:?}", other),
    }
}

#[test]
fn html_response_has_byte_length() {
    let r = html_response("héllo");
    let body = "<html><body>héllo</body></html>";
    assert_eq!(
        r,
        format!(
            "HTTP/1.1 200 OK\r\nContent-Type: text/html\r\nContent-Length: {}\r\nConnection: close\r\n\r\n{}",
            body.len(),
            body
        )
    );
}

#[test]
fn authorization_records_token_and_account() {
    let server = ServerId::from_key_url("user", "https://gt/mcp");
    let mut p = OAuthProgress::new(TokenStore::empty());
    let resp = TokenResponse {
        access_token: JWT.to_string(),
        refresh_token: Some("r1".to_string()),
        expires_in: 100,
    };
    p.record_authorization(&server, resp, 1000).unwrap();
    assert_eq!(p.account_id, "A#42");
    match p.credentials.get(&server) {
        Some(ServerCredentials::OAuth { access_token, refresh_token, expires_at, audience }) => {
            assert_eq!(access_token, JWT);
            assert_eq!(refresh_token, "r1");
            assert_eq!(*expires_at, 1100);
            assert_eq!(audience, "https://gt/mcp");
        }
        _ => panic!("no OAuth credential"),
    }
    let stored = p.store.tokens.get("https://gt/mcp").unwrap();
    assert_eq!(stored.refresh_token, "r1");
    assert_eq!(stored.account_id, "A#42");
    let (session, _store) = p.finish();
    assert_eq!(session.account_id, "A#42");
    assert!(session.has_usable_credential(&server));
}

#[test]
fn authorization_with_unreadable_token_changes_nothing() {
    let server = ServerId::from_key_url("user", "https://gt/mcp");
    let mut p = OAuthProgress::new(TokenStore::empty());
    let resp = TokenResponse { access_token: "garbage".to_string(), refresh_token: None, expires_in: 1 };
    assert_eq!(p.record_authorization(&server, resp, 0).unwrap_err(), "invalid JWT structure");
    assert!(!p.credentials.contains_key(&server));
    assert!(p.store.tokens.get("https://gt/mcp").is_none());
}

#[test]
fn refresh_keeps_stored_refresh_token_when_none_sent() {
    let server = ServerId::from_key_url("agent", "https://ag/mcp");
    let mut p = OAuthProgress::new(TokenStore::empty());
    let stored = StoredToken {
        refresh_token: "old".to_string(),
        expires_at: 5,
        account_id: "A#1".to_string(),
    };
    let resp = TokenResponse { access_token: "new".to_string(), refresh_token: None, expires_in: 60 };
    p.record_refresh(&server, &stored, resp, 10);
    assert_eq!(p.account_id, "A#1");
    let t = p.store.tokens.get("https://ag/mcp").unwrap();
    assert_eq!(t.refresh_token, "old");
    assert_eq!(t.expires_at, 70);
}

#[test]
fn callback_replies() {
    let (page, step) = callback_reply(CallbackOutcome::NotCallback);
    assert_eq!(page, "Not an OAuth callback. You may close this tab.");
    assert!(matches!(step, CallbackStep::KeepWaiting));
    let (page, step) = callback_reply(CallbackOutcome::Stale);
    assert_eq!(page, "Stale session. Waiting for current login...");
    assert!(matches!(step, CallbackStep::KeepWaiting));
    let (page, step) = callback_reply(CallbackOutcome::Denied { error: "access_denied".into(), description: "no".into() });
    assert_eq!(page, "Authorization failed: access_denied no");
    assert!(matches!(step, CallbackStep::Failed(m) if m == "OAuth authorization denied: access_denied no"));
    let (page, step) = callback_reply(CallbackOutcome::Code("c1".into()));
    assert_eq!(page, SUCCESS_PAGE);
    assert!(matches!(step, CallbackStep::Finished(c) if c == "c1"));
}

#[test]
fn token_request_forms() {
    let f = code_exchange_form("c", "id", "v");
    let pairs: Vec<(&str, &str)> = f.iter().map(|(a, b)| (a.as_str(), b.as_str())).collect();
    assert_eq!(
        pairs,
        vec![
            ("grant_type", "authorization_code"),
            ("code", "c"),
            ("client_id", "id"),
            ("redirect_uri", "http://127.0.0.1:19876/callback"),
            ("code_verifier", "v"),
        ]
    );
    let f = refresh_form("r", "id");
    let pairs: Vec<(&str, &str)> = f.iter().map(|(a, b)| (a.as_str(), b.as_str())).collect();
    assert_eq!(pairs, vec![("grant_type", "refresh_token"), ("refresh_token", "r"), ("client_id", "id")]);
    let body: serde_json::Value = serde_json::from_str(REGISTRATION_BODY).unwrap();
    assert_eq!(body["client_name"], serde_json::Value::from("GPS Trust MCP TUI"));
    assert_eq!(body["token_endpoint_auth_method"], serde_json::Value::from("none"));
    assert_eq!(body["redirect_uris"][0], serde_json::Value::from("http://127.0.0.1:19876/callback"));
}

#[test]
fn client_id_probe_uses_first_server() {
    let reg = ServerRegistry::from_specs("https://u/mcp", "https://a/mcp", &[]).unwrap();
    assert_eq!(
        client_id_probe(&Some("cid".into()), &reg),
        Some(("cid".to_string(), "https://u/mcp".to_string()))
    );
    assert_eq!(client_id_probe(&None, &reg), None);
    assert_eq!(client_id_probe(&Some("cid".into()), &ServerRegistry::new(vec![])), None);
}


#[test]
fn outcomes_of_read_claims() {
    assert_eq!(sub_claim_outcome(false, true, Some("x".into())).unwrap_err(), "failed to base64-decode JWT payload");
    assert_eq!(sub_claim_outcome(true, false, Some("x".into())).unwrap_err(), "failed to parse JWT payload JSON");
    assert_eq!(sub_claim_outcome(true, true, None).unwrap_err(), "JWT payload missing sub claim");
    assert_eq!(sub_claim_outcome(true, true, Some("A#1".into())).unwrap(), "A#1");
    assert_eq!(registration_outcome(false, Some("x".into())).unwrap_err(), "DCR response parse failed");
    assert_eq!(registration_outcome(true, None).unwrap_err(), "DCR response missing client_id");
    assert_eq!(registration_outcome(true, Some("cid".into())).unwrap(), "cid");
}

fn progress_with_stored(audience: &str) -> OAuthProgress {
    let mut store = TokenStore::empty();
    store.tokens.insert(
        audience.to_string(),
        StoredToken { refresh_token: "old".to_string(), expires_at: 5, account_id: "A#1".to_string() },
    );
    OAuthProgress::new(store)
}

#[test]
fn login_refreshes_a_stored_token_first() {
    let server = ServerId::from_key_url("agent", "https://ag/mcp");
    let mut p = progress_with_stored("https://ag/mcp");
    match p.step(&server, LoginEvent::Start, 0) {
        LoginStep::Refresh(t) => {
            assert_eq!(t.refresh_token, "old");
            assert_eq!(t.account_id, "A#1");
        }
        other => panic!("expected a refresh, got {:?}", other),
    }
    assert!(!p.credentials.contains_key(&server));
    let resp = TokenResponse { access_token: "new".to_string(), refresh_token: Some("r2".to_string()), expires_in: 60 };
    assert!(matches!(p.step(&server, LoginEvent::Refreshed(resp), 10), LoginStep::Next));
    assert_eq!(p.account_id, "A#1");
    match p.credentials.get(&server) {
        Some(ServerCredentials::OAuth { access_token, refresh_token, expires_at, audience }) => {
            assert_eq!(access_token, "new");
            assert_eq!(refresh_token, "r2");
            assert_eq!(*expires_at, 70);
            assert_eq!(audience, "https://ag/mcp");
        }
        _ => panic!("no OAuth credential"),
    }
    let t = p.store.tokens.get("https://ag/mcp").unwrap();
    assert_eq!(t.refresh_token, "r2");
    assert_eq!(t.expires_at, 70);
}

#[test]
fn login_without_stored_token_goes_to_the_browser() {
    let server = ServerId::from_key_url("user", "https://gt/mcp");
    let mut p = OAuthProgress::new(TokenStore::empty());
    assert!(matches!(p.step(&server, LoginEvent::Start, 0), LoginStep::Authorize));
    let resp = TokenResponse { access_token: "x".to_string(), refresh_token: None, expires_in: 1 };
    assert!(matches!(p.step(&server, LoginEvent::Refreshed(resp), 0), LoginStep::Authorize));
    assert!(!p.credentials.contains_key(&server));
}

#[test]
fn login_falls_back_to_the_browser_when_refresh_fails() {
    let server = ServerId::from_key_url("agent", "https://ag/mcp");
    let mut p = progress_with_stored("https://ag/mcp");
    assert!(matches!(p.step(&server, LoginEvent::RefreshFailed, 0), LoginStep::Authorize));
    assert!(!p.credentials.contains_key(&server));
    assert_eq!(p.store.tokens.get("https://ag/mcp").unwrap().refresh_token, "old");
}

#[test]
fn login_skips_a_declined_server() {
    let declined = ServerId::from_key_url("agent", "https://ag/mcp");
    let other = ServerId::from_key_url("user", "https://gt/mcp");
    let mut p = OAuthProgress::new(TokenStore::empty());
    assert!(matches!(p.step(&declined, LoginEvent::Declined, 0), LoginStep::Next));
    assert!(!p.credentials.contains_key(&declined));
    assert!(matches!(p.step(&other, LoginEvent::Start, 0), LoginStep::Authorize));
    let resp = TokenResponse { access_token: JWT.to_string(), refresh_token: None, expires_in: 100 };
    assert!(matches!(p.step(&other, LoginEvent::Authorized(resp), 1000), LoginStep::Next));
    assert!(p.credentials.contains_key(&other));
    assert!(!p.credentials.contains_key(&declined));
    assert_eq!(p.account_id, "A#42");
    let (session, _store) = p.finish();
    assert!(session.has_usable_credential(&other));
    assert!(!session.has_usable_credential(&declined));
}

#[test]
fn login_fails_on_a_token_without_readable_sub() {
    let server = ServerId::from_key_url("user", "https://gt/mcp");
    let mut p = OAuthProgress::new(TokenStore::empty());
    let resp = TokenResponse { access_token: "a.b".to_string(), refresh_token: None, expires_in: 1 };
    match p.step(&server, LoginEvent::Authorized(resp), 0) {
        LoginStep::Fail(m) => assert_eq!(m, "invalid JWT structure"),
        other => panic!("expected a failure, got {:?}", other),
    }
    assert!(!p.credentials.contains_key(&server));
    assert!(p.store.tokens.get("https://gt/mcp").is_none());
}
