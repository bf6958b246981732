use gps_trust_mcp_tui::ui::tool_form::field_value_display;
use gps_trust_mcp_tui::mcp::types::{ArgValue, InputSchema, PropertySchema, SchemaKind};
use gps_trust_mcp_tui::ui::tool_form::{assemble_args, build_form_fields, FieldType, FormState};

fn prop(name: &str, kind: SchemaKind) -> PropertySchema {
    PropertySchema { name: name.to_string(), kind, description: Some(format!("{name} help")) }
}

fn schema() -> InputSchema {
    InputSchema {
        properties: Some(vec![
            prop("verbose", SchemaKind::Boolean),
            prop("limit", SchemaKind::Integer),
            prop("account_id", SchemaKind::String { enum_values: None }),
            prop("mode", SchemaKind::String { enum_values: Some(vec!["fast".into(), "slow".into()]) }),
            prop("tags", SchemaKind::Array),
            prop("device_id", SchemaKind::String { enum_values: None }),
        ]),
        required: Some(vec!["device_id".into(), "account_id".into()]),
    }
}

#[test]
fn fields_are_required_first_then_by_name() {
    let fields = build_form_fields(&schema(), &["account_id".to_string()]);
    let names: Vec<&str> = fields.iter().map(|f| f.name.as_str()).collect();
    assert_eq!(names, vec!["account_id", "device_id", "limit", "mode", "tags", "verbose"]);
    assert!(fields[0].managed && fields[0].required);
    assert!(matches!(fields[3].field_type, FieldType::Enum(ref v) if v.len() == 2));
    assert_eq!(fields[3].value, "fast");
    assert_eq!(fields[5].value, "false");
    assert_eq!(fields[2].description.as_deref(), Some("limit help"));
}

#[test]
fn form_navigation_skips_managed_fields() {
    let mut form = FormState::new("t", &schema(), &["account_id".to_string()]);
    assert_eq!(form.visible_count(), 5);
    assert!(form.has_required_input());
    assert_eq!(form.missing_required(), vec!["device_id"]);
    assert!(!form.is_ready());
    form.push_char('D');
    form.push_str("#1");
    assert_eq!(form.fields[1].value, "D#1");
    form.pop_char();
    assert_eq!(form.fields[1].value, "D#");
    assert!(form.is_ready());
    form.select_prev();
    assert_eq!(form.selected_field, 4);
    form.toggle_boolean();
    assert_eq!(form.fields[5].value, "true");
    form.toggle_boolean();
    assert_eq!(form.fields[5].value, "false");
    form.select_next();
    assert_eq!(form.selected_field, 0);
    form.select_next();
    form.select_next();
    form.cycle_enum_forward();
    assert_eq!(form.fields[3].value, "slow");
    form.cycle_enum_forward();
    assert_eq!(form.fields[3].value, "fast");
    form.cycle_enum_backward();
    assert_eq!(form.fields[3].value, "slow");
    form.cycle_enum_backward();
    form.cycle_enum_forward();
    assert_eq!(form.fields[3].value, "slow");
}

#[test]
fn arguments_are_converted_by_type() {
    let mut form = FormState::new("t", &schema(), &["account_id".to_string()]);
    form.push_str("D#1");
    form.select_next();
    form.push_str("25");
    form.select_next();
    form.select_next();
    form.push_str(" a, b ,,c ");
    let args = assemble_args(&form.fields);
    assert!(matches!(args.get("device_id"), Some(ArgValue::Str(s)) if s == "D#1"));
    assert!(matches!(args.get("limit"), Some(ArgValue::Int(25))));
    assert!(matches!(args.get("tags"), Some(ArgValue::StrArray(v)) if v == &vec!["a".to_string(), "b".to_string(), "c".to_string()]));
    assert!(matches!(args.get("verbose"), Some(ArgValue::Bool(false))));
    assert!(matches!(args.get("mode"), Some(ArgValue::Str(s)) if s == "fast"));
    // Required fields are always sent, even when empty.
    assert!(matches!(args.get("account_id"), Some(ArgValue::Str(s)) if s.is_empty()));
}

#[test]
fn optional_empty_fields_are_left_out() {
    let form = FormState::new("t", &schema(), &[]);
    let args = assemble_args(&form.fields);
    assert!(args.get("limit").is_none());
    assert!(args.get("tags").is_none());
    assert!(args.get("device_id").is_some());
}

#[test]
fn integer_field_with_text_is_sent_as_string() {
    let s = InputSchema { properties: Some(vec![prop("n", SchemaKind::Integer)]), required: None };
    let mut form = FormState::new("t", &s, &[]);
    form.push_str("12x");
    let args = assemble_args(&form.fields);
    assert!(matches!(args.get("n"), Some(ArgValue::Str(v)) if v == "12x"));
}

#[test]
fn field_values_are_displayed_by_type() {
    let mut form = FormState::new("t", &schema(), &["account_id".to_string()]);
    // device_id (text), selected, not editing, empty
    assert_eq!(field_value_display(&form.fields[1], true, false), "[]");
    assert_eq!(field_value_display(&form.fields[1], true, true), "[_]");
    form.push_str("D");
    assert_eq!(field_value_display(&form.fields[1], true, true), "[D_]");
    assert_eq!(field_value_display(&form.fields[1], false, true), "[D]");
    assert_eq!(field_value_display(&form.fields[5], false, false), "[false]");
    assert_eq!(field_value_display(&form.fields[3], false, false), "< fast >");
    form.fields[3].value = "other".to_string();
    assert_eq!(field_value_display(&form.fields[3], false, false), "< >");
    assert_eq!(form.footer(), "[e] Execute  [Enter] Edit field  [j/k] Navigate  [Space] Toggle  [Esc] Back");
    form.editing = true;
    assert_eq!(form.footer(), "[Enter] Done  [Esc] Cancel edit");
    let empty = FormState::new("t", &InputSchema { properties: None, required: None }, &[]);
    assert_eq!(empty.footer(), "[e] Execute  [Esc] Back");
}
