use gps_trust_mcp_tui::mcp::identity_from_members;
use gps_trust_mcp_tui::mcp::notifications::kind_for_method;
use gps_trust_mcp_tui::app::Action;
use gps_trust_mcp_tui::auth::session::{AuthSession, CredentialMap, ServerCredentials};
use gps_trust_mcp_tui::mcp::notifications::{
    notification_action, notification_kind, NotificationCoalescer, NotificationKind, ProgressReport,
};
use gps_trust_mcp_tui::mcp::types::{
    ArgValue, ContentItem, ServerId, ServerRegistry, ToolArgs, ToolCallRequest, ToolResult,
};
use gps_trust_mcp_tui::mcp::{parse_entity_info, IdentityInfo, ManagerState};

fn registry() -> ServerRegistry {
    ServerRegistry::from_specs("https://u/mcp", "https://a/mcp", &["sv-track=https://st/mcp".to_string()])
        .unwrap()
}

fn session(reg: &ServerRegistry) -> AuthSession {
    let ids: Vec<&ServerId> = reg.iter().collect();
    let mut credentials = CredentialMap::new();
    credentials.insert(
        ids[0].clone(),
        ServerCredentials::OAuth {
            access_token: "tu".into(),
            refresh_token: String::new(),
            expires_at: 0,
            audience: "https://u/mcp".into(),
        },
    );
    // Token minted for another audience: the Agent server stays unauthorized.
    credentials.insert(
        ids[1].clone(),
        ServerCredentials::OAuth {
            access_token: "ta".into(),
            refresh_token: String::new(),
            expires_at: 0,
            audience: "https://u/mcp".into(),
        },
    );
    credentials.insert(ids[2].clone(), ServerCredentials::ApiKey { key: "k".into() });
    AuthSession {
        account_id: "A#1".into(),
        display_name: String::new(),
        entity_type: String::new(),
        credentials,
    }
}

fn text_result(t: &str) -> ToolResult {
    ToolResult { content: vec![ContentItem::Text(t.to_string())], is_error: None, structured_content: None }
}

#[test]
fn manager_splits_servers_by_usable_credential() {
    let reg = registry();
    let state = ManagerState::new(&session(&reg), &reg);
    let keys: Vec<&str> = state.credentialed().iter().map(|(s, _)| s.key()).collect();
    assert_eq!(keys, vec!["user", "sv-track"]);
    let un: Vec<&str> = state.unauthorized().iter().map(|s| s.key()).collect();
    assert_eq!(un, vec!["agent"]);
    let (_, h) = &state.credentialed()[0];
    assert_eq!(h.get("Authorization").unwrap(), "Bearer tu");
    let (_, h) = &state.credentialed()[1];
    assert_eq!(h.get("X-API-Key").unwrap(), "k");
}

#[test]
fn connecting_reports_when_nothing_connected() {
    let reg = registry();
    let mut state = ManagerState::new(&session(&reg), &reg);
    state.begin_connect();
    assert_eq!(state.finish_connect().unwrap_err(), "no MCP servers connected");
    let st = ServerId::from_key_url("sv-track", "https://st/mcp");
    state.mark_connected(&st);
    state.mark_connected(&st);
    assert!(state.finish_connect().is_ok());
    assert!(state.is_connected(&st));
    let listed: Vec<String> = state.connected_servers().iter().map(|s| s.key().to_string()).collect();
    assert_eq!(listed, vec!["sv-track".to_string()]);
    state.begin_connect();
    assert!(!state.is_connected(&st));
}

#[test]
fn bootstrap_needs_a_connected_identity_provider() {
    let reg = registry();
    let mut state = ManagerState::new(&session(&reg), &reg);
    assert_eq!(
        state.bootstrap_provider().unwrap_err(),
        "identity-provider server User is not connected"
    );
    let user = ServerId::from_key_url("user", "https://u/mcp");
    state.mark_connected(&user);
    assert_eq!(state.bootstrap_provider().unwrap().key(), "user");

    let reg2 = ServerRegistry::new(vec![ServerId::from_key_url("agent", "https://a/mcp")]);
    let state2 = ManagerState::new(&session(&reg), &reg2);
    assert_eq!(state2.bootstrap_provider().unwrap_err(), "no identity-provider server configured");
}

#[test]
fn calls_get_the_managed_account_and_need_a_client() {
    let reg = registry();
    let mut state = ManagerState::new(&session(&reg), &reg);
    let mut args = ToolArgs::new();
    args.insert("account_id".into(), ArgValue::Str("forged".into()));
    let req = ToolCallRequest {
        server: ServerId::from_key_url("user", "https://u/mcp"),
        tool_name: "t".into(),
        arguments: args,
    };
    let ready = state.prepare_call(req).unwrap();
    assert!(matches!(ready.arguments.get("account_id"), Some(ArgValue::Str(s)) if s == "A#1"));

    state.apply_identity(&IdentityInfo {
        account_id: "A#2".into(),
        display_name: "n".into(),
        entity_type: "e".into(),
    });
    let req = ToolCallRequest {
        server: ServerId::from_key_url("user", "https://u/mcp"),
        tool_name: "t".into(),
        arguments: ToolArgs::new(),
    };
    let ready = state.prepare_call(req).unwrap();
    assert!(matches!(ready.arguments.get("account_id"), Some(ArgValue::Str(s)) if s == "A#2"));

    let req = ToolCallRequest {
        server: ServerId::from_key_url("agent", "https://a/mcp"),
        tool_name: "t".into(),
        arguments: ToolArgs::new(),
    };
    assert_eq!(state.prepare_call(req).unwrap_err(), "server Agent is not available");
}

#[test]
fn entity_info_is_read_plain_or_wrapped() {
    let info = parse_entity_info(&text_result(
        r#"{"accountId":"A#9","entityName":"Robot Co","entityType":"account"}"#,
    ))
    .unwrap();
    assert_eq!(info.account_id, "A#9");
    assert_eq!(info.display_name, "Robot Co");
    assert_eq!(info.entity_type, "account");

    let info = parse_entity_info(&text_result(r#"{"entityInfoOutput":{"accountId":"A#3"}}"#)).unwrap();
    assert_eq!(info.account_id, "A#3");
    assert_eq!(info.display_name, "Unknown");
    assert_eq!(info.entity_type, "unknown");
}

#[test]
fn entity_info_errors() {
    let empty = ToolResult { content: vec![], is_error: None, structured_content: None };
    assert_eq!(parse_entity_info(&empty).unwrap_err(), "entity_info returned no text content");
    assert_eq!(
        parse_entity_info(&text_result("not json")).unwrap_err(),
        "entity_info returned invalid JSON"
    );
    assert_eq!(
        parse_entity_info(&text_result(r#"{"entityName":"x"}"#)).unwrap_err(),
        "missing accountId in entity_info response"
    );
    assert_eq!(
        parse_entity_info(&text_result(r#"{"entityInfoOutput":{"entityName":"x"},"accountId":"A"}"#))
            .unwrap_err(),
        "missing accountId in entity_info response"
    );
}

#[test]
fn notification_kinds() {
    assert_eq!(
        notification_kind(br#"{"method":"notifications/tools/list_changed"}"#),
        NotificationKind::ToolsListChanged
    );
    assert_eq!(
        notification_kind(br#"{"method":"notifications/progress","params":{}}"#),
        NotificationKind::Progress
    );
    assert_eq!(notification_kind(br#"{"method":"other"}"#), NotificationKind::Other);
    assert_eq!(notification_kind(br#"{"id":1}"#), NotificationKind::NoMethod);
    assert_eq!(notification_kind(b"junk"), NotificationKind::NoMethod);
}

#[test]
fn notification_actions() {
    let s = ServerId::from_key_url("user", "u");
    assert!(matches!(
        notification_action(s.clone(), NotificationKind::ToolsListChanged, None),
        Some(Action::McpToolsRefreshed(x)) if x.key() == "user"
    ));
    assert!(notification_action(s.clone(), NotificationKind::Progress, None).is_none());
    let report = ProgressReport { progress_token: "t".into(), progress: 7, total: None, message: None };
    assert!(matches!(
        notification_action(s.clone(), NotificationKind::Progress, Some(report)),
        Some(Action::McpProgress { progress_token, progress: 7, .. }) if progress_token == "t"
    ));
    assert!(notification_action(s, NotificationKind::Other, None).is_none());
}

fn progress(server: &ServerId, token: &str, p: u64) -> Action {
    Action::McpProgress {
        server: server.clone(),
        progress_token: token.into(),
        progress: p,
        total: None,
        message: None,
    }
}

#[test]
fn coalescer_keeps_latest_progress_per_token() {
    let s = ServerId::from_key_url("user", "u");
    let a = ServerId::from_key_url("agent", "a");
    let mut c = NotificationCoalescer::new();
    c.push(progress(&s, "t1", 1));
    c.push(Action::Render);
    c.push(progress(&s, "t1", 2));
    c.push(progress(&a, "t1", 3));
    c.push(progress(&s, "t2", 4));
    c.push(Action::Tick);
    let out = c.drain();
    assert_eq!(out.len(), 5);
    assert!(matches!(&out[0], Action::McpProgress { progress: 2, .. }));
    assert!(matches!(&out[1], Action::Render));
    assert!(matches!(&out[2], Action::McpProgress { progress: 3, .. }));
    assert!(matches!(&out[3], Action::McpProgress { progress: 4, .. }));
    assert!(matches!(&out[4], Action::Tick));
    assert!(c.drain().is_empty());
    let d = NotificationCoalescer::default();
    let mut d = d;
    assert!(d.drain().is_empty());
}

#[test]
fn identity_from_read_members() {
    assert_eq!(
        identity_from_members(false, Some("A".into()), None, None).unwrap_err(),
        "entity_info returned invalid JSON"
    );
    assert_eq!(
        identity_from_members(true, None, Some("n".into()), None).unwrap_err(),
        "missing accountId in entity_info response"
    );
    let info = identity_from_members(true, Some("A#5".into()), None, Some("robot".into())).unwrap();
    assert_eq!(info.account_id, "A#5");
    assert_eq!(info.display_name, "Unknown");
    assert_eq!(info.entity_type, "robot");
}

#[test]
fn notification_kind_from_method() {
    assert_eq!(kind_for_method(&None), NotificationKind::NoMethod);
    assert_eq!(
        kind_for_method(&Some("notifications/progress".into())),
        NotificationKind::Progress
    );
    assert_eq!(
        kind_for_method(&Some("notifications/tools/list_changed".into())),
        NotificationKind::ToolsListChanged
    );
    assert_eq!(kind_for_method(&Some("notifications/message".into())), NotificationKind::Other);
}
