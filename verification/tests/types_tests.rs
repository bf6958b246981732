use std::collections::HashMap;

use gps_trust_mcp_tui::mcp::types::{
    known_scope, known_server_meta, ArgValue, InputSchema, ManagedFieldsPolicy, ServerConfig,
    ServerId, ServerRegistry, TaskSupport, ToolArgs, ToolEntry, ToolInfo,
};

fn cfg(key: &str, label: &str, prefix: &str, url: &str, idp: bool) -> ServerId {
    ServerId::new(ServerConfig {
        key: key.to_string(),
        label: label.to_string(),
        prefix: prefix.to_string(),
        url: url.to_string(),
        is_identity_provider: idp,
        scope: "mcp:read".to_string(),
    })
}

#[test]
fn user_agent_registry_has_user_then_agent() {
    let reg = ServerRegistry::from_specs("https://u/mcp", "https://a/mcp", &[]).unwrap();
    let ids: Vec<&ServerId> = reg.iter().collect();
    assert_eq!(ids.len(), 2);
    assert_eq!(ids[0].key(), "user");
    assert_eq!(ids[0].url(), "https://u/mcp");
    assert_eq!(ids[1].key(), "agent");
    assert_eq!(ids[1].prefix(), "A");
}

#[test]
fn identity_provider_is_user() {
    let reg = ServerRegistry::from_specs("https://u/mcp", "https://a/mcp", &[]).unwrap();
    let provider = reg.identity_provider().expect("registry has an identity provider");
    assert_eq!(provider.key(), "user");
    assert!(provider.is_identity_provider());
}

#[test]
fn server_id_equality_and_hashing_is_by_key_only() {
    let a = cfg("x", "X", "X", "url-1", false);
    let b = cfg("x", "Different", "Y", "url-2", true);
    assert_eq!(a, b);

    let mut m = HashMap::new();
    m.insert(a.clone(), 42);
    assert_eq!(m.get(&b), Some(&42));
}

#[test]
fn from_specs_appends_extra_servers_with_catalog_metadata() {
    let reg = ServerRegistry::from_specs(
        "https://u/mcp",
        "https://a/mcp",
        &["sv-track=https://st/mcp".to_string()],
    )
    .unwrap();
    let ids: Vec<&ServerId> = reg.iter().collect();
    assert_eq!(ids.len(), 3);
    assert_eq!(ids[2].key(), "sv-track");
    assert_eq!(ids[2].label(), "SV Track");
    assert_eq!(ids[2].prefix(), "T");
    assert_eq!(ids[2].url(), "https://st/mcp");
    assert!(!ids[2].is_identity_provider());
}

#[test]
fn from_specs_rejects_malformed_spec() {
    assert!(ServerRegistry::from_specs("u", "a", &["noequals".to_string()]).is_err());
    assert!(ServerRegistry::from_specs("u", "a", &["=onlyurl".to_string()]).is_err());
    assert!(ServerRegistry::from_specs("u", "a", &["key=".to_string()]).is_err());
}

#[test]
fn from_specs_resolves_bare_known_key_to_default_url() {
    let reg = ServerRegistry::from_specs("u", "a", &["sv-track".to_string()]).unwrap();
    let ids: Vec<&ServerId> = reg.iter().collect();
    assert_eq!(ids.len(), 3);
    assert_eq!(ids[2].key(), "sv-track");
    assert_eq!(ids[2].url(), "https://st.aussierobots.com.au/mcp");
    assert_eq!(ids[2].label(), "SV Track");
}

#[test]
fn from_specs_overrides_existing_server_by_key() {
    let reg =
        ServerRegistry::from_specs("u", "a", &["user=https://custom/mcp".to_string()]).unwrap();
    let ids: Vec<&ServerId> = reg.iter().collect();
    assert_eq!(ids.len(), 2);
    assert_eq!(ids[0].key(), "user");
    assert_eq!(ids[0].url(), "https://custom/mcp");
}

#[test]
fn known_servers_request_policy_matching_scopes() {
    assert_eq!(known_scope("user"), "mcp:read mcp:write");
    assert_eq!(known_scope("agent"), "mcp:read mcp:write");
    assert_eq!(known_scope("pf"), "mcp:read mcp:write");
    assert_eq!(known_scope("sv-track"), "mcp:read");
    assert_eq!(known_scope("space-data"), "mcp:read");
    assert_eq!(known_scope("unknown"), "mcp:read");
    assert_eq!(
        ServerId::from_key_url("user", "https://gt/mcp").scope(),
        "mcp:read mcp:write"
    );
}

#[test]
fn managed_fields_injects_account_id_preserving_other_args() {
    let policy = ManagedFieldsPolicy::new("A#123");
    let mut args = ToolArgs::new();
    args.insert("device_id".to_string(), ArgValue::Str("D#x".to_string()));
    policy.inject(&mut args);
    assert!(matches!(args.get("account_id"), Some(ArgValue::Str(s)) if s == "A#123"));
    assert!(matches!(args.get("device_id"), Some(ArgValue::Str(s)) if s == "D#x"));
}

#[test]
fn managed_fields_override_a_forged_account_id() {
    let policy = ManagedFieldsPolicy::new("A#123");
    let mut args = ToolArgs::new();
    args.insert("account_id".to_string(), ArgValue::Str("A#evil".to_string()));
    policy.inject(&mut args);
    assert!(matches!(args.get("account_id"), Some(ArgValue::Str(s)) if s == "A#123"));
    assert_eq!(args.entries().len(), 1);
}

#[test]
fn unknown_keys_get_derived_metadata() {
    let (label, prefix, idp) = known_server_meta("weather");
    assert_eq!(prefix, "W");
    assert!(!idp);
    assert!(!label.is_empty());
    let s = ServerId::from_key_url("weather", "https://w/mcp");
    assert_eq!(s.key(), "weather");
    assert_eq!(s.url(), "https://w/mcp");
    assert_eq!(s.scope(), "mcp:read");
}

#[test]
fn from_specs_reports_the_malformed_spec() {
    let e = ServerRegistry::from_specs("u", "a", &["noequals".to_string()]).unwrap_err();
    assert_eq!(e, "--server 'noequals' has no known default URL; use KEY=URL");
    let e = ServerRegistry::from_specs("u", "a", &["key=".to_string()]).unwrap_err();
    assert_eq!(e, "--server KEY and URL must both be non-empty: 'key='");
}

#[test]
fn from_specs_splits_at_the_first_equals() {
    let reg = ServerRegistry::from_specs("u", "a", &["pf=https://x/mcp?a=b".to_string()]).unwrap();
    let ids: Vec<&ServerId> = reg.iter().collect();
    assert_eq!(ids[2].key(), "pf");
    assert_eq!(ids[2].url(), "https://x/mcp?a=b");
    assert_eq!(ids[2].label(), "Particle Filter");
}

#[test]
fn tool_args_insert_replaces_the_value() {
    let mut args = ToolArgs::new();
    args.insert("n".to_string(), ArgValue::Int(1));
    args.insert("n".to_string(), ArgValue::Int(2));
    assert!(matches!(args.get("n"), Some(ArgValue::Int(2))));
    assert_eq!(args.entries().len(), 1);
    assert!(args.get("m").is_none());
}

#[test]
fn task_support_badges() {
    let tool = |ts: Option<TaskSupport>, title: Option<&str>| ToolEntry {
        server: ServerId::from_key_url("user", "u"),
        tool: ToolInfo {
            name: "account_devices".to_string(),
            title: title.map(|t| t.to_string()),
            description: None,
            input_schema: InputSchema { properties: None, required: None },
            task_support: ts,
            read_only_hint: None,
            destructive_hint: None,
            idempotent_hint: None,
            open_world_hint: None,
        },
    };
    assert_eq!(tool(Some(TaskSupport::Required), None).task_badge(), "[T!]");
    assert_eq!(tool(Some(TaskSupport::Optional), None).task_badge(), "[T?]");
    assert_eq!(tool(Some(TaskSupport::Forbidden), None).task_badge(), "");
    assert_eq!(tool(None, None).display_name(), "account_devices");
    assert_eq!(tool(None, Some("Account Devices")).display_name(), "Account Devices");
}
