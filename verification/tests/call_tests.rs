use gps_trust_mcp_tui::call::{param_arg, text_output};
use gps_trust_mcp_tui::json::JsonKind;
use serde_json::Value;

use gps_trust_mcp_tui::call::{extract_json, find_tool, parse_params, tool_error, JsonOutput};
use gps_trust_mcp_tui::mcp::types::{
    ArgValue, ContentItem, InputSchema, ServerId, ToolArgs, ToolEntry, ToolInfo, ToolResult,
};

fn json_of(args: &ToolArgs, key: &str) -> Value {
    match args.get(key) {
        Some(ArgValue::Json(t)) => serde_json::from_str(t).unwrap(),
        Some(ArgValue::Str(s)) => Value::String(s.clone()),
        other => panic!("unexpected {:?}", other),
    }
}

fn output_value(o: JsonOutput) -> Value {
    match o {
        JsonOutput::Json(t) => serde_json::from_str(&t).unwrap(),
        JsonOutput::Text(t) => Value::String(t),
        JsonOutput::Null => Value::Null,
    }
}

fn obj(pairs: Vec<(&str, Value)>) -> Value {
    let mut m = serde_json::Map::new();
    for (k, v) in pairs {
        m.insert(k.to_string(), v);
    }
    Value::Object(m)
}

fn text(t: &str) -> ContentItem {
    ContentItem::Text(t.to_string())
}

#[test]
fn test_parse_params_empty() {
    let result = parse_params(&[]).unwrap();
    assert_eq!(result.entries().len(), 0);
}

#[test]
fn test_parse_params_string_value() {
    let params = vec!["robot_id=R#abc123".to_string()];
    let result = parse_params(&params).unwrap();
    assert_eq!(result.entries().len(), 1);
    assert_eq!(json_of(&result, "robot_id"), Value::from("R#abc123"));
}

#[test]
fn test_parse_params_multiple() {
    let params = vec![
        "device_id=D#001".to_string(),
        "limit=50".to_string(),
        "include_history=true".to_string(),
    ];
    let result = parse_params(&params).unwrap();
    assert_eq!(result.entries().len(), 3);
    assert_eq!(json_of(&result, "device_id"), Value::from("D#001"));
    assert_eq!(json_of(&result, "limit"), Value::from(50));
    assert_eq!(json_of(&result, "include_history"), Value::from(true));
}

#[test]
fn test_parse_params_numeric_string() {
    let params = vec!["precision=9".to_string()];
    let result = parse_params(&params).unwrap();
    assert_eq!(json_of(&result, "precision"), Value::from(9));
}

#[test]
fn test_parse_params_float() {
    let params = vec!["latitude=-33.8688".to_string()];
    let result = parse_params(&params).unwrap();
    assert_eq!(json_of(&result, "latitude"), Value::from(-33.8688));
}

#[test]
fn test_parse_params_boolean() {
    let params = vec!["enabled=true".to_string(), "verbose=false".to_string()];
    let result = parse_params(&params).unwrap();
    assert_eq!(json_of(&result, "enabled"), Value::from(true));
    assert_eq!(json_of(&result, "verbose"), Value::from(false));
}

#[test]
fn test_parse_params_json_object() {
    let params = vec![r#"config={"key":"val"}"#.to_string()];
    let result = parse_params(&params).unwrap();
    assert_eq!(json_of(&result, "config"), obj(vec![("key", Value::from("val"))]));
}

#[test]
fn test_parse_params_value_with_equals() {
    let params = vec!["filter=a=b".to_string()];
    let result = parse_params(&params).unwrap();
    assert_eq!(json_of(&result, "filter"), Value::from("a=b"));
}

#[test]
fn test_parse_params_invalid_no_equals() {
    let params = vec!["no_equals_here".to_string()];
    let result = parse_params(&params);
    assert!(result.is_err());
    assert!(result.unwrap_err().contains("expected key=value"));
}

#[test]
fn parse_params_error_names_the_flag() {
    let params = vec!["a=1".to_string(), "oops".to_string()];
    assert_eq!(
        parse_params(&params).unwrap_err(),
        "invalid param 'oops': expected key=value"
    );
}

#[test]
fn parse_params_later_flag_wins() {
    let params = vec!["n=1".to_string(), "n=2".to_string()];
    let result = parse_params(&params).unwrap();
    assert_eq!(result.entries().len(), 1);
    assert_eq!(json_of(&result, "n"), Value::from(2));
}

#[test]
fn test_extract_json_structured_content() {
    let result = ToolResult {
        content: vec![],
        is_error: None,
        structured_content: Some(r#"{"count": 5}"#.to_string()),
    };
    assert_eq!(output_value(extract_json(&result)), obj(vec![("count", Value::from(5))]));
}

#[test]
fn test_extract_json_text_json() {
    let result = ToolResult {
        content: vec![text(r#"{"devices": []}"#)],
        is_error: None,
        structured_content: None,
    };
    assert_eq!(
        output_value(extract_json(&result)),
        obj(vec![("devices", Value::Array(vec![]))])
    );
}

#[test]
fn test_extract_json_text_plain() {
    let result = ToolResult {
        content: vec![text("Hello world")],
        is_error: None,
        structured_content: None,
    };
    assert_eq!(output_value(extract_json(&result)), Value::from("Hello world"));
}

#[test]
fn test_extract_json_empty() {
    let result = ToolResult { content: vec![], is_error: None, structured_content: None };
    assert_eq!(output_value(extract_json(&result)), Value::Null);
}

#[test]
fn test_extract_json_structured_takes_priority() {
    let result = ToolResult {
        content: vec![text(r#"{"from": "text"}"#)],
        is_error: None,
        structured_content: Some(r#"{"from": "structured"}"#.to_string()),
    };
    assert_eq!(
        output_value(extract_json(&result)),
        obj(vec![("from", Value::from("structured"))])
    );
}

#[test]
fn test_extract_json_skips_non_text_blocks() {
    let result = ToolResult {
        content: vec![
            ContentItem::Image { mime_type: "image/png".to_string(), data_len: 3 },
            text(r#"{"found": true}"#),
        ],
        is_error: None,
        structured_content: None,
    };
    assert_eq!(output_value(extract_json(&result)), obj(vec![("found", Value::from(true))]));
}

#[test]
fn tool_error_uses_first_text_block() {
    let result = ToolResult {
        content: vec![ContentItem::Image { mime_type: "x".into(), data_len: 0 }, text("boom")],
        is_error: Some(true),
        structured_content: None,
    };
    assert_eq!(tool_error(&result), Some("tool returned error: boom".to_string()));
    let result = ToolResult { content: vec![], is_error: Some(true), structured_content: None };
    assert_eq!(tool_error(&result), Some("tool returned error: unknown error".to_string()));
    let result = ToolResult { content: vec![text("fine")], is_error: Some(false), structured_content: None };
    assert_eq!(tool_error(&result), None);
}

#[test]
fn find_tool_lists_available_tools_when_missing() {
    let entry = |name: &str| ToolEntry {
        server: ServerId::from_key_url("user", "u"),
        tool: ToolInfo {
            name: name.to_string(),
            title: None,
            description: None,
            input_schema: InputSchema { properties: None, required: None },
            task_support: None,
            read_only_hint: None,
            destructive_hint: None,
            idempotent_hint: None,
            open_world_hint: None,
        },
    };
    let tools = vec![entry("a"), entry("b"), entry("b")];
    assert_eq!(find_tool(&tools, "b"), Ok(1));
    assert_eq!(
        find_tool(&tools, "zz").unwrap_err(),
        "tool 'zz' not found. Available tools: a, b, b"
    );
    assert_eq!(
        find_tool(&vec![], "zz").unwrap_err(),
        "tool 'zz' not found. Available tools: "
    );
}

#[test]
fn values_by_json_validity() {
    assert!(matches!(param_arg("5".into(), JsonKind::Number), ArgValue::Json(s) if s == "5"));
    assert!(matches!(param_arg("true".into(), JsonKind::Bool), ArgValue::Json(s) if s == "true"));
    assert!(matches!(param_arg("{}".into(), JsonKind::Object), ArgValue::Json(s) if s == "{}"));
    assert!(matches!(param_arg("[1]".into(), JsonKind::Array), ArgValue::Str(s) if s == "[1]"));
    assert!(matches!(param_arg("null".into(), JsonKind::Null), ArgValue::Str(s) if s == "null"));
    assert!(matches!(param_arg("x y".into(), JsonKind::Invalid), ArgValue::Str(s) if s == "x y"));
    assert!(matches!(text_output("[1]".into(), true), JsonOutput::Json(s) if s == "[1]"));
    assert!(matches!(text_output("hi".into(), false), JsonOutput::Text(s) if s == "hi"));
}

#[test]
fn parse_params_sends_only_numbers_booleans_and_objects_as_json() {
    let params = vec![
        "a=null".to_string(),
        "b=[1,2]".to_string(),
        r#"c="x""#.to_string(),
        "d=1.5".to_string(),
    ];
    let result = parse_params(&params).unwrap();
    assert!(matches!(result.get("a"), Some(ArgValue::Str(s)) if s == "null"));
    assert!(matches!(result.get("b"), Some(ArgValue::Str(s)) if s == "[1,2]"));
    assert!(matches!(result.get("c"), Some(ArgValue::Str(s)) if s == "\"x\""));
    assert!(matches!(result.get("d"), Some(ArgValue::Json(s)) if s == "1.5"));
}
