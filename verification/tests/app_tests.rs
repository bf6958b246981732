use gps_trust_mcp_tui::app::{
    call_error_result, tool_needs_input, tool_passes_filter, Action, App, ConnectionState,
    InputMode, PanelFocus,
};
use gps_trust_mcp_tui::auth::session::{AuthSession, CredentialMap};
use gps_trust_mcp_tui::event::{map_key, KeyCode, KeyInput};
use gps_trust_mcp_tui::mcp::types::{
    ActiveTask, ArgValue, ContentItem, InputSchema, PropertySchema, SchemaKind, ServerId,
    TaskInfo, TaskStatus, ToolEntry, ToolInfo, ToolResult,
};
use gps_trust_mcp_tui::ui::result_view::{ResultState, ResultTab};

fn prop(name: &str, kind: SchemaKind) -> PropertySchema {
    PropertySchema { name: name.to_string(), kind, description: None }
}

fn entry(name: &str, title: Option<&str>, props: Option<Vec<PropertySchema>>, required: &[&str]) -> ToolEntry {
    ToolEntry {
        server: ServerId::from_key_url("user", "https://u/mcp"),
        tool: ToolInfo {
            name: name.to_string(),
            title: title.map(|t| t.to_string()),
            description: None,
            input_schema: InputSchema {
                properties: props,
                required: if required.is_empty() {
                    None
                } else {
                    Some(required.iter().map(|s| s.to_string()).collect())
                },
            },
            task_support: None,
            read_only_hint: None,
            destructive_hint: None,
            idempotent_hint: None,
            open_world_hint: None,
        },
    }
}

fn session() -> AuthSession {
    AuthSession {
        account_id: "A#1".to_string(),
        display_name: "Robot Co".to_string(),
        entity_type: "account".to_string(),
        credentials: CredentialMap::new(),
    }
}

fn loaded_app() -> App {
    let mut app = App::new();
    app.update(Action::ToolsLoaded(vec![
        entry("account_devices", Some("Account Devices"), None, &[]),
        entry("device_location", None, Some(vec![prop("device_id", SchemaKind::String { enum_values: None })]), &["device_id"]),
        entry("robot_status", Some("Robot Status"), Some(vec![prop("account_id", SchemaKind::String { enum_values: None })]), &["account_id"]),
    ]));
    app
}

fn typed(app: &mut App, text: &str) {
    for c in text.chars() {
        app.update(Action::FilterChar(c));
    }
}

#[test]
fn new_app_starts_on_tool_list() {
    let app = App::new();
    assert!(!app.should_quit);
    assert_eq!(app.input_mode, InputMode::Normal);
    assert_eq!(app.focus, PanelFocus::ToolList);
    assert_eq!(app.visible_tool_count(), 0);
    assert!(app.selected_tool().is_none());
    assert_eq!(app.identity_display(), "(not authenticated)");
}

#[test]
fn loading_tools_selects_the_first() {
    let app = loaded_app();
    assert_eq!(app.visible_tool_count(), 3);
    assert_eq!(app.selected, Some(0));
    assert_eq!(app.selected_tool().unwrap().tool.name, "account_devices");
}

#[test]
fn filter_matches_name_or_title_case_insensitively() {
    let mut app = loaded_app();
    app.update(Action::FilterChar('/'));
    assert_eq!(app.input_mode, InputMode::Filter);
    typed(&mut app, "STATUS");
    assert_eq!(app.filtered_indices, vec![2]);
    assert_eq!(app.selected, Some(0));
    app.update(Action::FilterBackspace);
    assert_eq!(app.filter_text, "STATU");
    app.update(Action::Escape);
    assert_eq!(app.filter_text, "");
    assert_eq!(app.filtered_indices, vec![0, 1, 2]);
    assert_eq!(app.input_mode, InputMode::Normal);
}

#[test]
fn filter_with_no_match_clears_selection() {
    let mut app = loaded_app();
    app.update(Action::FilterStart);
    typed(&mut app, "zzz");
    assert!(app.filtered_indices.is_empty());
    assert_eq!(app.selected, None);
    assert!(app.selected_tool().is_none());
}

#[test]
fn paste_goes_to_the_filter() {
    let mut app = loaded_app();
    app.update(Action::FilterStart);
    app.update(Action::PasteText("device_".to_string()));
    assert_eq!(app.filter_text, "device_");
    assert_eq!(app.filtered_indices, vec![1]);
}

#[test]
fn selection_wraps_and_clears_the_right_panel() {
    let mut app = loaded_app();
    app.result_state = Some(ResultState::with_error("x".to_string()));
    app.update(Action::ScrollUp);
    assert_eq!(app.selected, Some(2));
    assert!(app.result_state.is_none());
    app.update(Action::ScrollDown);
    assert_eq!(app.selected, Some(0));
    app.update(Action::FilterChar('j'));
    assert_eq!(app.selected, Some(1));
    app.update(Action::FilterChar('k'));
    assert_eq!(app.selected, Some(0));
}

#[test]
fn enter_runs_a_tool_without_input_at_once() {
    let mut app = loaded_app();
    app.update(Action::Enter);
    assert!(app.execute_requested);
    let req = app.take_execution().expect("a request");
    assert_eq!(req.tool_name, "account_devices");
    assert_eq!(req.server.key(), "user");
    assert_eq!(req.arguments.entries().len(), 0);
    assert!(!app.execute_requested);
    assert_eq!(app.focus, PanelFocus::Result);
    let rs = app.result_state.as_ref().unwrap();
    assert_eq!(rs.tool_name.as_deref(), Some("account_devices"));
    assert!(rs.result.is_none());
    assert!(app.take_execution().is_none());
}

#[test]
fn enter_opens_the_form_when_input_is_needed() {
    let mut app = loaded_app();
    app.update(Action::ScrollDown);
    assert!(app.selected_tool_needs_input());
    app.update(Action::Enter);
    assert_eq!(app.focus, PanelFocus::Form);
    let form = app.form_state.as_ref().unwrap();
    assert_eq!(form.tool_name, "device_location");
    assert_eq!(form.fields.len(), 1);
    assert!(!app.execute_requested);

    // A required field is empty: the run does not start.
    app.update(Action::FilterChar('e'));
    assert!(app.take_execution().is_none());
    assert_eq!(app.focus, PanelFocus::Form);

    // Edit the field, then run.
    app.update(Action::Enter);
    assert_eq!(app.input_mode, InputMode::FormEdit);
    typed(&mut app, "D#7");
    app.update(Action::Enter);
    assert_eq!(app.input_mode, InputMode::Normal);
    app.update(Action::FilterChar('e'));
    let req = app.take_execution().expect("a request");
    assert_eq!(req.tool_name, "device_location");
    assert!(matches!(req.arguments.get("device_id"), Some(ArgValue::Str(s)) if s == "D#7"));
    assert!(app.form_state.is_none());
}

#[test]
fn account_id_is_supplied_by_the_session() {
    let mut app = loaded_app();
    app.update(Action::AuthSuccess(session()));
    assert_eq!(app.identity_display(), "Robot Co");
    app.update(Action::ScrollUp);
    assert_eq!(app.selected_tool().unwrap().tool.name, "robot_status");
    assert!(!app.selected_tool_needs_input());
    app.update(Action::Enter);
    assert!(app.execute_requested);
}

#[test]
fn tab_cycles_through_existing_panes() {
    let mut app = loaded_app();
    app.update(Action::FocusNext);
    assert_eq!(app.focus, PanelFocus::Detail);
    app.update(Action::FocusNext);
    assert_eq!(app.focus, PanelFocus::ToolList);
    app.update(Action::FocusPrev);
    assert_eq!(app.focus, PanelFocus::Detail);
    app.result_state = Some(ResultState::new());
    app.update(Action::FocusNext);
    assert_eq!(app.focus, PanelFocus::Result);
    app.update(Action::FocusPrev);
    assert_eq!(app.focus, PanelFocus::Detail);
}

#[test]
fn escape_closes_panes_in_turn() {
    let mut app = loaded_app();
    app.update(Action::ScrollDown);
    app.update(Action::Enter);
    assert_eq!(app.focus, PanelFocus::Form);
    app.result_state = Some(ResultState::new());
    app.focus = PanelFocus::Result;
    app.update(Action::Escape);
    assert!(app.result_state.is_none());
    assert_eq!(app.focus, PanelFocus::Form);
    app.update(Action::Escape);
    assert!(app.form_state.is_none());
    assert_eq!(app.focus, PanelFocus::Detail);
    app.update(Action::Escape);
    assert_eq!(app.focus, PanelFocus::ToolList);
}

#[test]
fn tool_result_keeps_the_pending_tool_name() {
    let mut app = loaded_app();
    app.update(Action::Enter);
    app.take_execution().unwrap();
    let server = ServerId::from_key_url("user", "u");
    app.active_task = Some(ActiveTask {
        server,
        task: TaskInfo { task_id: "t1".into(), status: TaskStatus::Working, status_message: None },
        tool_name: "account_devices".into(),
        progress: None,
        total: None,
        message: None,
    });
    app.update(Action::McpToolResult(ToolResult {
        content: vec![ContentItem::Text("ok".into())],
        is_error: None,
        structured_content: None,
    }));
    let rs = app.result_state.as_ref().unwrap();
    assert_eq!(rs.tool_name.as_deref(), Some("account_devices"));
    assert!(rs.result.is_some());
    assert!(app.active_task.is_none());
    assert_eq!(app.focus, PanelFocus::Result);
}

#[test]
fn progress_updates_the_active_task() {
    let mut app = App::new();
    let server = ServerId::from_key_url("user", "u");
    app.active_task = Some(ActiveTask {
        server: server.clone(),
        task: TaskInfo { task_id: "t1".into(), status: TaskStatus::Working, status_message: None },
        tool_name: "x".into(),
        progress: None,
        total: None,
        message: None,
    });
    app.update(Action::McpProgress {
        server,
        progress_token: "p".into(),
        progress: 3.0f64.to_bits(),
        total: Some(10.0f64.to_bits()),
        message: Some("working".into()),
    });
    let t = app.active_task.as_ref().unwrap();
    assert_eq!(t.progress, Some(3.0f64.to_bits()));
    assert_eq!(t.total, Some(10.0f64.to_bits()));
    assert_eq!(t.message.as_deref(), Some("working"));
}

#[test]
fn server_states_follow_connection_events() {
    let mut app = App::new();
    let s = ServerId::from_key_url("agent", "https://a/mcp");
    assert_eq!(app.server_state.get("agent"), None);
    app.update(Action::McpConnecting(s.clone()));
    assert_eq!(app.server_state.get("agent"), Some(ConnectionState::Connecting));
    app.update(Action::McpConnected(s.clone()));
    assert_eq!(app.server_state.get("agent"), Some(ConnectionState::Connected));
    app.update(Action::McpError(s.clone(), "boom".into()));
    assert_eq!(app.server_state.get("agent"), Some(ConnectionState::Error));
    app.update(Action::McpDisconnected(s));
    assert_eq!(app.server_state.get("agent"), Some(ConnectionState::Disconnected));
    assert_eq!(app.server_state.get("user"), None);
}

#[test]
fn command_keys() {
    let mut app = loaded_app();
    app.update(Action::FilterChar('r'));
    assert!(app.reconnect_requested);
    app.update(Action::FilterChar('L'));
    assert!(app.logout_requested);
    assert!(app.should_quit);
    let mut app = App::new();
    app.update(Action::FilterChar('q'));
    assert!(app.should_quit);
    let mut app = App::new();
    app.update(Action::Quit);
    assert!(app.should_quit);
}

#[test]
fn result_tabs_and_scrolling() {
    let mut app = loaded_app();
    app.result_state = Some(ResultState::with_error("bad".to_string()));
    app.focus = PanelFocus::Result;
    app.update(Action::ScrollDown);
    app.update(Action::ScrollDown);
    assert_eq!(app.result_state.as_ref().unwrap().scroll_offset, 2);
    app.update(Action::FilterChar('2'));
    let rs = app.result_state.as_ref().unwrap();
    assert_eq!(rs.active_tab, ResultTab::Raw);
    assert_eq!(rs.scroll_offset, 0);
    app.update(Action::ScrollUp);
    assert_eq!(app.result_state.as_ref().unwrap().scroll_offset, 0);
}

#[test]
fn needs_input_ignores_managed_account_id() {
    let schema = InputSchema {
        properties: Some(vec![prop("account_id", SchemaKind::String { enum_values: None })]),
        required: Some(vec!["account_id".to_string()]),
    };
    assert!(tool_needs_input(&schema, false));
    assert!(!tool_needs_input(&schema, true));
    let none = InputSchema { properties: None, required: Some(vec!["x".to_string()]) };
    assert!(!tool_needs_input(&none, false));
}

#[test]
fn filter_predicate() {
    assert!(tool_passes_filter("abc", "def", ""));
    assert!(tool_passes_filter("abc", "def", "bc"));
    assert!(tool_passes_filter("abc", "def", "ef"));
    assert!(!tool_passes_filter("abc", "def", "cd"));
}

#[test]
fn call_error_result_is_flagged() {
    let r = call_error_result("timeout");
    assert_eq!(r.is_error, Some(true));
    assert!(matches!(&r.content[..], [ContentItem::Text(t)] if t == "Error: timeout"));
}

#[test]
fn keys_map_to_actions() {
    let k = |code, ctrl| map_key(KeyInput { code, ctrl });
    assert!(matches!(k(KeyCode::Char('c'), true), Some(Action::Quit)));
    assert!(matches!(k(KeyCode::Char('c'), false), Some(Action::FilterChar('c'))));
    assert!(matches!(k(KeyCode::Down, false), Some(Action::ScrollDown)));
    assert!(matches!(k(KeyCode::Up, false), Some(Action::ScrollUp)));
    assert!(matches!(k(KeyCode::Enter, false), Some(Action::Enter)));
    assert!(matches!(k(KeyCode::Esc, false), Some(Action::Escape)));
    assert!(matches!(k(KeyCode::Tab, false), Some(Action::FocusNext)));
    assert!(matches!(k(KeyCode::BackTab, false), Some(Action::FocusPrev)));
    assert!(matches!(k(KeyCode::Backspace, false), Some(Action::FilterBackspace)));
    assert!(k(KeyCode::Other, false).is_none());
}

#[test]
fn number_keys_select_their_result_tab() {
    let mut app = App::new();
    app.result_state = Some(ResultState::new());
    app.update(Action::FilterChar('1'));
    assert_eq!(app.result_state.as_ref().unwrap().active_tab, ResultTab::Structured);
    app.update(Action::FilterChar('2'));
    assert_eq!(app.result_state.as_ref().unwrap().active_tab, ResultTab::Raw);
    app.update(Action::FilterChar('2'));
    assert_eq!(app.result_state.as_ref().unwrap().active_tab, ResultTab::Raw);
    app.update(Action::FilterChar('1'));
    assert_eq!(app.result_state.as_ref().unwrap().active_tab, ResultTab::Structured);
}

#[test]
fn enter_keeps_the_filter_and_escape_lists_every_tool() {
    let mut app = loaded_app();
    app.update(Action::FilterStart);
    typed(&mut app, "status");
    app.update(Action::Enter);
    assert_eq!(app.input_mode, InputMode::Normal);
    assert_eq!(app.filter_text, "status");
    assert_eq!(app.filtered_indices, vec![2]);
    app.update(Action::FilterStart);
    typed(&mut app, "zzz");
    assert_eq!(app.selected, None);
    app.update(Action::Escape);
    assert_eq!(app.input_mode, InputMode::Normal);
    assert!(app.filter_text.is_empty());
    assert_eq!(app.filtered_indices, vec![0, 1, 2]);
    assert_eq!(app.selected, Some(0));
}
