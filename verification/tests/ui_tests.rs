use gps_trust_mcp_tui::app::{Action, App, InputMode, PanelFocus};
use gps_trust_mcp_tui::mcp::types::{
    ContentItem, InputSchema, PropertySchema, SchemaKind, ServerId, TaskInfo, TaskStatus, ToolEntry,
    ToolInfo, ToolResult,
};
use gps_trust_mcp_tui::ui::login_view::{login_message, LoginStatus};
use gps_trust_mcp_tui::ui::raw_view::{block_lines_of, raw_lines, text_lines_of, LineTone, ShownLine, EMPTY_RESULT};
use gps_trust_mcp_tui::ui::result_view::{content_caption_of, ResultState, ResultTab};
use gps_trust_mcp_tui::ui::status_bar::{key_hints, mode_badge, server_status_label, tool_count_label};
use gps_trust_mcp_tui::ui::json_view::{friendly_lines, JsonTree, Piece, Tone};
use gps_trust_mcp_tui::ui::task_view::{
    detail_lines, failure_line, gauge_label, status_display, status_message_line, task_header,
};
use gps_trust_mcp_tui::ui::tool_browser::{
    annotation_hints, badge_label, parameter_label, parameter_order, schema_type_name, tool_list_title,
};

fn tool(name: &str) -> ToolInfo {
    ToolInfo {
        name: name.to_string(),
        title: None,
        description: None,
        input_schema: InputSchema { properties: None, required: None },
        task_support: None,
        read_only_hint: None,
        destructive_hint: None,
        idempotent_hint: None,
        open_world_hint: None,
    }
}

fn prop(name: &str, kind: SchemaKind) -> PropertySchema {
    PropertySchema { name: name.to_string(), kind, description: None }
}

#[test]
fn result_state_scrolls_saturating() {
    let mut rs = ResultState::new();
    rs.scroll_up(3);
    assert_eq!(rs.scroll_offset, 0);
    rs.scroll_down(u16::MAX - 1);
    rs.scroll_down(5);
    assert_eq!(rs.scroll_offset, u16::MAX);
    rs.next_tab();
    assert_eq!(rs.active_tab, ResultTab::Raw);
    assert_eq!(rs.scroll_offset, 0);
    rs.next_tab();
    assert_eq!(rs.active_tab, ResultTab::Structured);
}

#[test]
fn result_title_marks_errors() {
    let mut rs = ResultState::with_result(ToolResult { content: vec![], is_error: Some(true), structured_content: None });
    assert!(rs.shows_error());
    assert_eq!(rs.title(), "Result (error)");
    rs.tool_name = Some("t".to_string());
    assert_eq!(rs.title(), "t (error)");
    let ok = ResultState::with_result(ToolResult { content: vec![], is_error: None, structured_content: None });
    assert!(!ok.shows_error());
    assert_eq!(ok.title(), "Result");
    assert!(ok.has_content());
    assert!(!ResultState::new().has_content());
    let err = ResultState::with_error("bad".into());
    assert!(err.shows_error());
    assert!(err.has_content());
}

#[test]
fn content_captions() {
    let c = |i: ContentItem| content_caption_of(&i);
    assert_eq!(c(ContentItem::Text("x".into())), None);
    assert_eq!(
        c(ContentItem::Image { mime_type: "image/png".into(), data_len: 12 }),
        Some("[Image: image/png, 12 bytes]".to_string())
    );
    assert_eq!(
        c(ContentItem::Audio { mime_type: "audio/wav".into(), data_len: 0 }),
        Some("[Audio: audio/wav, 0 bytes]".to_string())
    );
    assert_eq!(
        c(ContentItem::ResourceLink { uri: "u://x".into(), name: "".into() }),
        Some("-> u://x".to_string())
    );
    assert_eq!(
        c(ContentItem::ResourceLink { uri: "u://x".into(), name: "doc".into() }),
        Some("-> u://x (doc)".to_string())
    );
    assert_eq!(
        c(ContentItem::TextResource { uri: "u://r".into(), text: "t".into() }),
        Some("[Resource: u://r]".to_string())
    );
    assert_eq!(
        c(ContentItem::BlobResource { uri: "u://b".into(), blob_len: 1024 }),
        Some("[Blob: u://b, 1024 bytes]".to_string())
    );
    assert_eq!(
        c(ContentItem::ToolUse { id: "9".into(), name: "run".into() }),
        Some("[ToolUse: run (9)]".to_string())
    );
    assert_eq!(
        c(ContentItem::ToolResult { tool_use_id: "9".into(), is_error: Some(true), content: vec![] }),
        Some("[ToolResult: 9 (error)]".to_string())
    );
    assert_eq!(
        c(ContentItem::ToolResult { tool_use_id: "9".into(), is_error: None, content: vec![] }),
        Some("[ToolResult: 9]".to_string())
    );
}

#[test]
fn footer_hints_by_mode_and_focus() {
    let mut app = App::new();
    assert_eq!(key_hints(&app), "j/k: navigate | Enter: open | /: filter | Tab: next pane | q: quit");
    app.focus = PanelFocus::Result;
    assert_eq!(key_hints(&app), "j/k: scroll | 1/2: switch tab | Esc: close | Tab: next pane | q: quit");
    app.input_mode = InputMode::Filter;
    assert_eq!(key_hints(&app), "Type to filter | Enter: accept | Esc: clear");
    app.input_mode = InputMode::FormEdit;
    assert_eq!(key_hints(&app), "Type to edit | Enter: done | Esc: cancel");
    assert_eq!(mode_badge(InputMode::FormEdit), " EDIT ");
    assert_eq!(mode_badge(InputMode::Normal), "");
}

#[test]
fn status_labels_and_counts() {
    let mut app = App::new();
    let s = ServerId::from_key_url("user", "u");
    assert_eq!(server_status_label(&app, &s), "--");
    app.update(Action::McpConnecting(s.clone()));
    assert_eq!(server_status_label(&app, &s), "..");
    app.update(Action::McpConnected(s.clone()));
    assert_eq!(server_status_label(&app, &s), "ok");
    app.update(Action::McpError(s.clone(), "e".into()));
    assert_eq!(server_status_label(&app, &s), "err");
    app.update(Action::ToolsLoaded(vec![
        ToolEntry { server: s.clone(), tool: tool("alpha") },
        ToolEntry { server: s.clone(), tool: tool("beta") },
    ]));
    assert_eq!(tool_count_label(&app), "2 tools");
    assert_eq!(tool_list_title(&app), "Tools (2)");
    app.update(Action::FilterStart);
    app.update(Action::FilterChar('b'));
    assert_eq!(tool_list_title(&app), "Tools (1/2)");
    assert_eq!(tool_count_label(&app), "1 tools");
}

#[test]
fn detail_texts() {
    assert_eq!(badge_label("[T!]"), "Task: required");
    assert_eq!(badge_label("[T?]"), "Task: optional");
    assert_eq!(badge_label(""), "");
    let mut t = tool("x");
    assert_eq!(annotation_hints(&t), "");
    t.read_only_hint = Some(true);
    t.idempotent_hint = Some(true);
    t.destructive_hint = Some(false);
    assert_eq!(annotation_hints(&t), "read-only | idempotent");
    t.open_world_hint = Some(true);
    t.destructive_hint = Some(true);
    assert_eq!(annotation_hints(&t), "read-only | destructive | idempotent | open-world");
    assert_eq!(schema_type_name(&SchemaKind::Integer), "integer");
    assert_eq!(schema_type_name(&SchemaKind::String { enum_values: None }), "string");
    let req = Some(vec!["device_id".to_string(), "account_id".to_string()]);
    assert_eq!(parameter_label(&prop("device_id", SchemaKind::String { enum_values: None }), &req), "  device_id* : string");
    assert_eq!(parameter_label(&prop("limit", SchemaKind::Integer), &req), "  limit : integer");
    assert_eq!(
        parameter_label(&prop("account_id", SchemaKind::String { enum_values: None }), &req),
        "  account_id* : string  (from session)"
    );
}

#[test]
fn parameters_are_listed_by_name() {
    let props = vec![
        prop("zeta", SchemaKind::Boolean),
        prop("alpha", SchemaKind::Integer),
        prop("Beta", SchemaKind::Number),
        prop("alp", SchemaKind::Array),
    ];
    assert_eq!(parameter_order(&props), vec![2, 3, 1, 0]);
    assert_eq!(parameter_order(&vec![]), Vec::<usize>::new());
}

#[test]
fn task_texts() {
    assert_eq!(status_display(TaskStatus::Working), "Working");
    assert_eq!(status_display(TaskStatus::InputRequired), "Input Required");
    assert_eq!(status_display(TaskStatus::Cancelled), "Cancelled");
    assert_eq!(failure_line(&None), "  Task failed: (no details)");
    assert_eq!(failure_line(&Some("boom".into())), "  Task failed: boom");
    assert_eq!(status_message_line(&None), "");
    assert_eq!(status_message_line(&Some("m".into())), "  m");
}

#[test]
fn login_texts() {
    assert_eq!(login_message(&LoginStatus::Authenticating), "Authenticating...");
    assert_eq!(login_message(&LoginStatus::OAuthBrowser), "Opening browser for OAuth login...");
    assert_eq!(login_message(&LoginStatus::Success("Ann".into())), "Authenticated as Ann");
    assert_eq!(login_message(&LoginStatus::Error("no".into())), "Auth error: no");
}

#[test]
fn task_pane_texts() {
    let task = |status, msg: Option<&str>| TaskInfo {
        task_id: "t1".into(),
        status,
        status_message: msg.map(|m| m.to_string()),
    };
    assert_eq!(task_header("t1"), " Task: t1 ");
    assert_eq!(gauge_label(&None), "Working...");
    assert_eq!(gauge_label(&Some("half".into())), "half");
    assert_eq!(detail_lines(&task(TaskStatus::Working, None)), vec!["  [x] Cancel task".to_string()]);
    assert_eq!(
        detail_lines(&task(TaskStatus::Completed, Some("done"))),
        vec!["  Task completed successfully.".to_string(), "  done".to_string()]
    );
    assert_eq!(detail_lines(&task(TaskStatus::Failed, None)), vec!["  Task failed: (no details)".to_string()]);
    assert_eq!(
        detail_lines(&task(TaskStatus::Cancelled, None)),
        vec!["  Task was cancelled.".to_string(), "".to_string()]
    );
    assert_eq!(
        detail_lines(&task(TaskStatus::InputRequired, None)),
        vec!["  Input required -- not supported in TUI v1".to_string()]
    );
}

fn texts(lines: &[Vec<Piece>]) -> Vec<String> {
    lines.iter().map(|l| l.iter().map(|p| p.text.as_str()).collect::<String>()).collect()
}

#[test]
fn json_is_rendered_friendly() {
    let tree = JsonTree::Object(vec![
        ("name".into(), JsonTree::Str("bot".into())),
        ("count".into(), JsonTree::Number("3".into())),
        (
            "tags".into(),
            JsonTree::Array(vec![JsonTree::Str("a".into()), JsonTree::Bool(true)]),
        ),
        ("owner".into(), JsonTree::Object(vec![("id".into(), JsonTree::Null)])),
    ]);
    let lines = friendly_lines(&tree, "");
    assert_eq!(
        texts(&lines),
        vec![
            "name  bot".to_string(),
            "count  3".to_string(),
            "tags  (2 items)".to_string(),
            "  a".to_string(),
            "  ───".to_string(),
            "  true".to_string(),
            "owner".to_string(),
            "  id  null".to_string(),
        ]
    );
    assert_eq!(lines[0][1].tone, Tone::Dim);
    assert_eq!(lines[0][2].tone, Tone::Text);
    assert_eq!(lines[2][1].tone, Tone::Heading);
    assert_eq!(lines[5][1].tone, Tone::True);
    assert_eq!(lines[7][2].tone, Tone::Null);
    let top = JsonTree::Array(vec![JsonTree::Number("1".into()), JsonTree::Bool(false)]);
    let lines = friendly_lines(&top, "  ");
    assert_eq!(texts(&lines), vec!["  1".to_string(), "  ───".to_string(), "  false".to_string()]);
    assert_eq!(lines[2][1].tone, Tone::False);
}

fn shown_pairs(lines: Vec<ShownLine>) -> Vec<(String, LineTone)> {
    lines.into_iter().map(|l| (l.text, l.tone)).collect()
}

#[test]
fn text_lines_follow_str_lines() {
    assert_eq!(text_lines_of("a\nb\r\nc"), vec!["a", "b", "c"]);
    assert_eq!(text_lines_of("a\n"), vec!["a"]);
    assert!(text_lines_of("").is_empty());
    assert_eq!(text_lines_of("\n\n"), vec!["", ""]);
    assert_eq!(text_lines_of("x\r"), vec!["x\r"]);
    for s in ["one\ntwo", "\r\n", "a\r\r\nb\n", "plain"] {
        assert_eq!(text_lines_of(s), s.lines().collect::<Vec<_>>());
    }
}

#[test]
fn raw_tab_shows_an_error_alone() {
    let state = ResultState::with_error("bad".to_string());
    assert_eq!(shown_pairs(raw_lines(&state)), vec![("bad".to_string(), LineTone::Error)]);
}

#[test]
fn raw_tab_without_result_is_empty() {
    assert!(raw_lines(&ResultState::new()).is_empty());
}

#[test]
fn raw_tab_marks_an_empty_result() {
    let state = ResultState::with_result(ToolResult { content: vec![], is_error: None, structured_content: None });
    assert_eq!(shown_pairs(raw_lines(&state)), vec![(EMPTY_RESULT.to_string(), LineTone::Plain)]);
}

#[test]
fn raw_tab_pretty_prints_structured_content_and_lists_blocks() {
    let state = ResultState::with_result(ToolResult {
        content: vec![
            ContentItem::Text("{\"b\":[1,2]}".to_string()),
            ContentItem::Image { mime_type: "image/png".to_string(), data_len: 3 },
        ],
        is_error: Some(true),
        structured_content: Some("{\"a\":1}".to_string()),
    });
    let expected: Vec<(String, LineTone)> = vec![
        ("── structured ──", LineTone::Separator),
        ("{", LineTone::Error),
        ("  \"a\": 1", LineTone::Error),
        ("}", LineTone::Error),
        ("", LineTone::Plain),
        ("{", LineTone::Error),
        ("  \"b\": [", LineTone::Error),
        ("    1,", LineTone::Error),
        ("    2", LineTone::Error),
        ("  ]", LineTone::Error),
        ("}", LineTone::Error),
        ("", LineTone::Plain),
        ("[Image: image/png, 3 bytes]", LineTone::MediaCaption),
    ]
    .into_iter()
    .map(|(t, k)| (t.to_string(), k))
    .collect();
    assert_eq!(shown_pairs(raw_lines(&state)), expected);
}

#[test]
fn raw_tab_shows_nested_error_results_in_the_error_tone() {
    let state = ResultState::with_result(ToolResult {
        content: vec![ContentItem::ToolResult {
            tool_use_id: "t1".to_string(),
            is_error: Some(true),
            content: vec![
                ContentItem::Text("not json\nsecond".to_string()),
                ContentItem::TextResource { uri: "file:///x".to_string(), text: "body".to_string() },
            ],
        }],
        is_error: None,
        structured_content: None,
    });
    let expected: Vec<(String, LineTone)> = vec![
        ("[ToolResult: t1 (error)]", LineTone::ToolCaption),
        ("not json", LineTone::Error),
        ("second", LineTone::Error),
        ("[Resource: file:///x]", LineTone::ResourceCaption),
        ("body", LineTone::Error),
    ]
    .into_iter()
    .map(|(t, k)| (t.to_string(), k))
    .collect();
    assert_eq!(shown_pairs(raw_lines(&state)), expected);
}

#[test]
fn block_lines_of_a_link() {
    let item = ContentItem::ResourceLink { uri: "https://x".to_string(), name: "n".to_string() };
    assert_eq!(
        shown_pairs(block_lines_of(&item, LineTone::Plain)),
        vec![("-> https://x (n)".to_string(), LineTone::ResourceCaption)]
    );
}
