use gps_trust_mcp_tui::auth::api_key::authenticate;
use gps_trust_mcp_tui::auth::session::{AuthSession, CredentialMap, ServerCredentials};
use gps_trust_mcp_tui::auth::{AuthManager, AuthStrategy};
use gps_trust_mcp_tui::mcp::types::{ServerId, ServerRegistry};

fn st_server() -> ServerId {
    ServerId::from_key_url("sv-track", "https://st/mcp")
}

fn session_with(server: &ServerId, creds: ServerCredentials) -> AuthSession {
    let mut credentials = CredentialMap::new();
    credentials.insert(server.clone(), creds);
    AuthSession {
        account_id: String::new(),
        display_name: String::new(),
        entity_type: String::new(),
        credentials,
    }
}

#[test]
fn mismatched_audience_is_unusable_and_token_withheld() {
    let st = st_server();
    let session = session_with(
        &st,
        ServerCredentials::OAuth {
            access_token: "tok".into(),
            refresh_token: String::new(),
            expires_at: 0,
            audience: "https://WRONG/mcp".into(),
        },
    );
    assert!(session.credentials.contains_key(&st));
    assert!(!session.has_usable_credential(&st));
    assert!(session.headers_for(&st).is_empty());
}

#[test]
fn matching_audience_is_usable_and_attaches_bearer() {
    let st = st_server();
    let session = session_with(
        &st,
        ServerCredentials::OAuth {
            access_token: "tok".into(),
            refresh_token: String::new(),
            expires_at: 0,
            audience: "https://st/mcp".into(),
        },
    );
    assert!(session.has_usable_credential(&st));
    assert_eq!(
        session.headers_for(&st).get("Authorization").unwrap(),
        "Bearer tok"
    );
}

#[test]
fn api_key_is_always_usable() {
    let st = st_server();
    let session = session_with(&st, ServerCredentials::ApiKey { key: "k".into() });
    assert!(session.has_usable_credential(&st));
    assert_eq!(session.headers_for(&st).get("X-API-Key").unwrap(), "k");
}

#[test]
fn missing_credential_is_unusable() {
    let st = st_server();
    let other = ServerId::from_key_url("pf", "https://pf/mcp");
    let session = session_with(&other, ServerCredentials::ApiKey { key: "k".into() });
    assert!(!session.credentials.contains_key(&st));
    assert!(!session.has_usable_credential(&st));
    assert_eq!(session.headers_for(&st).len(), 0);
}

#[test]
fn credential_map_finds_entries_by_key() {
    let mut m = CredentialMap::new();
    let a = ServerId::from_key_url("user", "https://u/mcp");
    m.insert(a.clone(), ServerCredentials::ApiKey { key: "1".into() });
    m.insert(ServerId::from_key_url("user", "https://other/mcp"), ServerCredentials::ApiKey { key: "2".into() });
    assert!(matches!(m.get(&a), Some(ServerCredentials::ApiKey { key }) if key == "2"));
}

#[test]
fn api_key_session_covers_every_server() {
    let reg = ServerRegistry::from_specs("https://u/mcp", "https://a/mcp", &["pf".to_string()]).unwrap();
    let session = authenticate("secret", &reg);
    for s in reg.iter() {
        assert!(session.has_usable_credential(s));
        assert_eq!(session.headers_for(s).get("X-API-Key").unwrap(), "secret");
    }
    assert_eq!(session.account_id, "");
}

#[test]
fn strategy_prefers_api_key_then_oauth() {
    let m = AuthManager::new(Some("k".into()), true, "u".into(), "a".into());
    assert!(matches!(m.strategy(), Ok(AuthStrategy::ApiKey(k)) if k == "k"));
    let m = AuthManager::new(None, true, "u".into(), "a".into());
    assert!(matches!(m.strategy(), Ok(AuthStrategy::OAuth)));
    let m = AuthManager::new(None, false, "u".into(), "a".into());
    assert_eq!(
        m.strategy().unwrap_err(),
        "No authentication method available. Use --api-key <key> or run without --no-oauth for OAuth login"
    );
    assert_eq!(m.user_url(), "u");
    assert_eq!(m.agent_url(), "a");
}
