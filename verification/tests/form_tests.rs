use firebase_db::collections::{describe_documents, AutoFieldType, CollectionSchema, FieldInfo};
use firebase_db::error::ErrorKind;
use firebase_db::json::{parse_json, to_json_text, JsonNumber, JsonValue};
use firebase_db::tui_form::{
    format_value_display, format_value_for_editing, get_example_for_type, infer_field_type,
    parse_field_value, FormAction, FormField, FormKey, TuiForm,
};

const NOW: &str = "2024-06-01T12:00:00+00:00";

fn field(name: &str, field_type: &str, required: bool) -> FormField {
    FormField {
        name: name.to_string(),
        field_type: field_type.to_string(),
        value: String::new(),
        required,
        description: None,
        default_value: None,
        auto_field: None,
    }
}

fn info(name: &str, field_type: &str, required: bool, auto: Option<AutoFieldType>) -> FieldInfo {
    FieldInfo {
        name: name.to_string(),
        field_type: field_type.to_string(),
        is_required: required,
        sample_values: Vec::new(),
        frequency: 1,
        unique_values: 0,
        auto_field: auto,
    }
}

fn schema(fields: Vec<FieldInfo>) -> CollectionSchema {
    CollectionSchema {
        collection_name: "people".to_string(),
        total_documents: 1,
        fields,
        sample_document: None,
    }
}

fn two_field_form() -> TuiForm {
    TuiForm::from_schema(
        "people",
        &schema(vec![info("name", "string", true, None), info("age", "integer", false, None)]),
    )
}

fn type_text(form: &mut TuiForm, text: &str) {
    for c in text.chars() {
        assert_eq!(form.handle_key(FormKey::Char(c)), FormAction::Continue);
    }
}

fn json(v: &JsonValue) -> String {
    to_json_text(v).unwrap()
}

#[test]
fn every_type_has_its_example() {
    assert_eq!(get_example_for_type("string"), "\"John Doe\"");
    assert_eq!(get_example_for_type("integer"), "42");
    assert_eq!(get_example_for_type("number"), "3.14");
    assert_eq!(get_example_for_type("boolean"), "true");
    assert_eq!(get_example_for_type("array"), "[\"item1\", \"item2\"]");
    assert_eq!(get_example_for_type("object"), "{\"key\": \"value\"}");
    assert_eq!(get_example_for_type("timestamp"), "2024-01-01T12:00:00Z or 'now'");
    assert_eq!(get_example_for_type("blob"), "value");
    assert_eq!(get_example_for_type(""), "value");
}

#[test]
fn the_type_of_a_field_is_inferred_from_its_value() {
    let cases = [
        (r#""x""#, "string"),
        ("1", "integer"),
        ("-1", "integer"),
        ("1.5", "number"),
        ("18446744073709551615", "number"),
        ("true", "boolean"),
        ("[1]", "array"),
        ("{}", "object"),
        ("null", "string"),
    ];
    for (text, kind) in cases {
        assert_eq!(infer_field_type(&parse_json(text).unwrap()), kind, "on {}", text);
    }
}

#[test]
fn values_are_shown_for_editing_and_for_display() {
    let cases = [
        (r#""x y""#, "x y", "\"x y\""),
        ("12", "12", "12"),
        ("1.5", "1.5", "1.5"),
        ("false", "false", "false"),
        ("null", "", ""),
        (r#"[1, "a"]"#, r#"[1,"a"]"#, "Array(2 items)"),
        (r#"{"a": {"b": 1}, "c": 2}"#, r#"{"a":{"b":1},"c":2}"#, "Object(2 fields)"),
    ];
    for (text, editing, display) in cases {
        let v = parse_json(text).unwrap();
        assert_eq!(format_value_for_editing(&v), editing, "on {}", text);
        assert_eq!(format_value_display(&v), display, "on {}", text);
    }
}

#[test]
fn a_text_is_read_as_a_value_of_the_type_of_its_field() {
    let ok = |value: &str, kind: &str| json(&parse_field_value(value, kind, NOW).unwrap());
    assert_eq!(ok("Ann", "string"), r#""Ann""#);
    assert_eq!(ok(" padded ", "string"), r#"" padded ""#);
    assert_eq!(ok("42", "integer"), "42");
    assert_eq!(ok("-7", "integer"), "-7");
    assert_eq!(ok("3.14", "number"), "3.14");
    assert_eq!(ok("5", "number"), "5");
    assert_eq!(ok("1e3", "number"), "1000.0");
    assert_eq!(ok("YES", "boolean"), "true");
    assert_eq!(ok("1", "boolean"), "true");
    assert_eq!(ok("no", "boolean"), "false");
    assert_eq!(ok("False", "boolean"), "false");
    assert_eq!(ok("0", "boolean"), "false");
    assert_eq!(ok(r#"[1, 2]"#, "array"), "[1,2]");
    assert_eq!(ok(r#"{"a": 1}"#, "object"), r#"{"a":1}"#);
    assert_eq!(ok("2024-01-01T13:00:00+01:00", "timestamp"), r#""2024-01-01T12:00:00+00:00""#);
    assert_eq!(ok("NOW", "timestamp"), format!("\"{}\"", NOW));
    assert_eq!(ok("anything", "blob"), r#""anything""#);
}

#[test]
fn a_blank_text_is_null_or_an_empty_array() {
    assert!(matches!(parse_field_value("", "string", NOW), Ok(JsonValue::Null)));
    assert!(matches!(parse_field_value("  ", "integer", NOW), Ok(JsonValue::Null)));
    assert!(matches!(parse_field_value("\t", "timestamp", NOW), Ok(JsonValue::Null)));
    match parse_field_value(" ", "array", NOW) {
        Ok(JsonValue::Array(items)) => assert!(items.is_empty()),
        _ => panic!("a blank array is an empty array"),
    }
}

#[test]
fn a_text_that_is_no_value_of_its_type_is_refused() {
    let err = |value: &str, kind: &str| {
        let e = parse_field_value(value, kind, NOW).unwrap_err();
        assert_eq!(e.kind(), ErrorKind::Validation);
        e.detail().to_string()
    };
    assert_eq!(err("4x", "integer"), "Invalid integer: 4x");
    assert_eq!(err("1.5", "integer"), "Invalid integer: 1.5");
    assert_eq!(err("abc", "number"), "Invalid number: abc");
    assert_eq!(err("\"5\"", "number"), "Invalid number: \"5\"");
    assert_eq!(err("maybe", "boolean"), "Invalid boolean: maybe (use true/false)");
    assert_eq!(err("[1,", "array"), "Invalid JSON: [1,");
    assert_eq!(err("{a}", "object"), "Invalid JSON: {a}");
    assert_eq!(
        err("yesterday", "timestamp"),
        "Invalid timestamp: yesterday (use ISO 8601 format or 'now')"
    );
}

#[test]
fn a_form_from_a_schema_asks_for_what_nothing_fills_in() {
    let form = TuiForm::from_schema(
        "people",
        &schema(vec![
            info("name", "string", true, None),
            info("created_at", "timestamp", true, Some(AutoFieldType::CreatedAt)),
            info("tags", "array", false, None),
        ]),
    );
    assert_eq!(form.title, "Create Document in 'people'");
    assert_eq!(form.fields.len(), 2);
    assert_eq!(form.fields[0].name, "name");
    assert!(form.fields[0].required);
    assert_eq!(form.fields[0].value, "");
    assert_eq!(form.fields[0].description.as_deref(), Some("example: \"John Doe\""));
    assert_eq!(form.fields[1].name, "tags");
    assert_eq!(form.fields[1].value, "[]");
    assert_eq!(form.fields[1].default_value.as_deref(), Some("[]"));
    assert_eq!(form.fields[1].description.as_deref(), Some("example: [\"item1\", \"item2\"]"));
    assert_eq!(form.current_field, 0);
    assert!(form.editing_field);
    assert!(!form.button_selected);
    assert_eq!(form.edit_buffer, "");
    assert!(form.schema.is_some());
    assert!(form.compact_mode);
    assert_eq!(form.help_text.len(), 1);
}

#[test]
fn a_form_shows_a_sample_value_as_the_example() {
    let docs = vec![parse_json(r#"{"fields":{"city":{"stringValue":"Oslo"}}}"#).unwrap()];
    let form = TuiForm::from_schema("places", &describe_documents("places", &docs));
    assert_eq!(form.fields.len(), 1);
    assert_eq!(form.fields[0].description.as_deref(), Some("example: \"Oslo\""));
}

#[test]
fn a_form_from_an_empty_schema_asks_for_a_name() {
    let form = TuiForm::from_schema("people", &schema(Vec::new()));
    assert_eq!(form.fields.len(), 1);
    assert_eq!(form.fields[0].name, "name");
    assert_eq!(form.fields[0].field_type, "string");
    assert!(!form.fields[0].required);
    let only_auto = TuiForm::from_schema(
        "people",
        &schema(vec![info("updated_at", "timestamp", true, Some(AutoFieldType::UpdatedAt))]),
    );
    assert_eq!(only_auto.fields.len(), 1);
    assert_eq!(only_auto.fields[0].name, "name");
}

#[test]
fn a_form_from_a_document_starts_from_its_values() {
    let data = parse_json(r#"{"age": 30, "name": "Ann", "tags": ["a"]}"#).unwrap();
    let form = TuiForm::from_existing_data("people", "d1", &data);
    assert_eq!(form.title, "Update Document 'd1' in 'people'");
    assert_eq!(form.fields.len(), 3);
    assert_eq!(form.fields[0].name, "age");
    assert_eq!(form.fields[0].field_type, "integer");
    assert_eq!(form.fields[0].value, "30");
    assert_eq!(form.fields[0].description.as_deref(), Some("current: 30 | example: 42"));
    assert_eq!(form.fields[1].value, "Ann");
    assert_eq!(
        form.fields[1].description.as_deref(),
        Some("current: \"Ann\" | example: \"John Doe\"")
    );
    assert_eq!(form.fields[2].value, r#"["a"]"#);
    assert_eq!(form.fields[2].default_value.as_deref(), Some(r#"["a"]"#));
    assert!(!form.fields[2].required);
    assert_eq!(form.edit_buffer, "30");
    assert_eq!(form.cursor_position, 2);
    assert!(form.schema.is_none());
    let none = TuiForm::from_existing_data("people", "d1", &JsonValue::Null);
    assert!(none.fields.is_empty());
}

#[test]
fn typing_edits_the_buffer_at_the_cursor() {
    let mut form = two_field_form();
    type_text(&mut form, "Anx");
    assert_eq!(form.edit_buffer, "Anx");
    assert_eq!(form.cursor_position, 3);
    form.handle_key(FormKey::Backspace);
    assert_eq!(form.edit_buffer, "An");
    form.handle_key(FormKey::Left);
    form.handle_key(FormKey::Char('n'));
    assert_eq!(form.edit_buffer, "Ann");
    assert_eq!(form.cursor_position, 2);
    form.handle_key(FormKey::Home);
    assert_eq!(form.cursor_position, 0);
    form.handle_key(FormKey::Left);
    assert_eq!(form.cursor_position, 0);
    form.handle_key(FormKey::Backspace);
    assert_eq!(form.edit_buffer, "Ann");
    form.handle_key(FormKey::Delete);
    assert_eq!(form.edit_buffer, "nn");
    form.handle_key(FormKey::End);
    assert_eq!(form.cursor_position, 2);
    form.handle_key(FormKey::Right);
    assert_eq!(form.cursor_position, 2);
    form.handle_key(FormKey::Delete);
    assert_eq!(form.edit_buffer, "nn");
    form.handle_key(FormKey::Other);
    assert_eq!(form.edit_buffer, "nn");
    assert_eq!(form.fields[0].value, "");
}

#[test]
fn tab_checks_the_buffer_and_goes_on() {
    let mut form = two_field_form();
    assert_eq!(form.handle_key(FormKey::Tab), FormAction::Continue);
    assert_eq!(form.current_field, 0);
    assert_eq!(form.error_message.as_deref(), Some("Required field 'name' cannot be empty"));
    type_text(&mut form, "Ann");
    assert!(form.error_message.is_none());
    form.handle_key(FormKey::Tab);
    assert_eq!(form.fields[0].value, "Ann");
    assert_eq!(form.current_field, 1);
    assert_eq!(form.edit_buffer, "");
    type_text(&mut form, "old");
    form.handle_key(FormKey::Down);
    assert_eq!(form.current_field, 1);
    assert_eq!(form.error_message.as_deref(), Some("Invalid integer. Example: 42, -10, 0"));
    assert_eq!(form.fields[1].value, "");
    form.handle_key(FormKey::Backspace);
    form.handle_key(FormKey::Backspace);
    form.handle_key(FormKey::Backspace);
    type_text(&mut form, "30");
    form.handle_key(FormKey::Enter);
    assert_eq!(form.fields[1].value, "30");
    assert!(form.button_selected);
    assert!(!form.editing_field);
    assert_eq!(form.selected_button, 0);
}

#[test]
fn the_buttons_submit_or_cancel() {
    let mut form = two_field_form();
    type_text(&mut form, "Ann");
    form.handle_key(FormKey::Tab);
    form.handle_key(FormKey::Tab);
    assert!(form.button_selected);
    form.handle_key(FormKey::Right);
    assert_eq!(form.selected_button, 1);
    form.handle_key(FormKey::Tab);
    assert_eq!(form.selected_button, 0);
    form.handle_key(FormKey::Tab);
    assert_eq!(form.selected_button, 1);
    assert_eq!(form.handle_key(FormKey::Other), FormAction::Continue);
    assert_eq!(form.handle_key(FormKey::Enter), FormAction::Cancel);
    form.handle_key(FormKey::Left);
    assert_eq!(form.selected_button, 0);
    assert_eq!(form.handle_key(FormKey::Enter), FormAction::Submit);
    assert_eq!(json(&form.to_json(NOW, &Vec::new()).unwrap()), r#"{"name":"Ann"}"#);
    assert_eq!(form.handle_key(FormKey::Esc), FormAction::Cancel);
    assert_eq!(form.handle_key(FormKey::CtrlC), FormAction::Cancel);
    form.handle_key(FormKey::Up);
    assert!(!form.button_selected);
    assert!(form.editing_field);
    assert_eq!(form.current_field, 1);
}

#[test]
fn escape_and_control_c_cancel_while_editing() {
    let mut form = two_field_form();
    assert_eq!(form.handle_key(FormKey::Esc), FormAction::Cancel);
    assert_eq!(form.handle_key(FormKey::CtrlC), FormAction::Cancel);
}

#[test]
fn control_s_submits_what_is_complete() {
    let mut form = two_field_form();
    assert_eq!(form.handle_key(FormKey::CtrlS), FormAction::Continue);
    assert!(form.error_message.is_some());
    type_text(&mut form, "Ann");
    assert_eq!(form.handle_key(FormKey::CtrlS), FormAction::Submit);
    assert_eq!(form.fields[0].value, "Ann");
    let mut form = TuiForm::from_schema(
        "people",
        &schema(vec![info("a", "string", false, None), info("b", "string", true, None)]),
    );
    assert_eq!(form.handle_key(FormKey::CtrlS), FormAction::Continue);
    assert_eq!(form.error_message.as_deref(), Some("Required field 'b' is empty"));
}

#[test]
fn up_and_back_tab_keep_the_buffer_unchecked() {
    let mut form = two_field_form();
    type_text(&mut form, "Ann");
    form.handle_key(FormKey::Tab);
    type_text(&mut form, "old");
    form.handle_key(FormKey::Up);
    assert_eq!(form.fields[1].value, "old");
    assert_eq!(form.current_field, 0);
    assert_eq!(form.edit_buffer, "Ann");
    form.handle_key(FormKey::Up);
    assert_eq!(form.current_field, 0);
    form.handle_key(FormKey::BackTab);
    assert_eq!(form.current_field, 1);
    assert_eq!(form.edit_buffer, "old");
    form.handle_key(FormKey::BackTab);
    assert_eq!(form.current_field, 0);
    let e = form.to_json(NOW, &Vec::new()).unwrap_err();
    assert_eq!(e.kind(), ErrorKind::Validation);
    assert_eq!(e.detail(), "Invalid integer: old");
}

#[test]
fn a_value_is_checked_before_it_is_taken() {
    let mut form = TuiForm::new("t".to_string());
    for (name, kind) in [
        ("i", "integer"),
        ("n", "number"),
        ("b", "boolean"),
        ("a", "array"),
        ("o", "object"),
        ("t", "timestamp"),
        ("s", "string"),
    ] {
        form.add_field(field(name, kind, false));
    }
    let cases = [
        (0, "x", Some("Invalid integer. Example: 42, -10, 0")),
        (0, "-3", None),
        (1, "x", Some("Invalid number. Example: 3.14, -0.5, 42")),
        (1, "2.5", None),
        (2, "maybe", Some("Invalid boolean. Use: true, false, yes, no, 1, or 0")),
        (2, "Yes", None),
        (3, "[", Some("Invalid JSON array. Example: [1, 2, 3] or [\"a\", \"b\"]")),
        (3, "[1]", None),
        (4, "{", Some("Invalid JSON object. Example: {\"key\": \"value\"}")),
        (4, "{}", None),
        (5, "soon", Some("Invalid timestamp. Use ISO format (2024-01-01T12:00:00Z) or 'now'")),
        (5, "Now", None),
        (5, "2024-01-01T12:00:00Z", None),
        (6, "anything", None),
        (6, "  ", None),
        (99, "ignored", None),
    ];
    for (index, value, problem) in cases {
        let r = form.validate_and_set_field(index, value);
        assert_eq!(r.as_ref().err().map(|s| s.as_str()), problem, "on {:?}", value);
        if problem.is_none() && index < form.fields.len() {
            assert_eq!(form.fields[index].value, value);
        }
    }
    let mut required = TuiForm::new("t".to_string());
    required.add_field(field("r", "string", true));
    assert_eq!(
        required.validate_and_set_field(0, " ").unwrap_err(),
        "Required field 'r' cannot be empty"
    );
    assert_eq!(required.validate_all_fields().unwrap_err(), "Required field 'r' is empty");
    required.validate_and_set_field(0, "x").unwrap();
    assert!(required.validate_all_fields().is_ok());
}

#[test]
fn the_document_of_a_form_holds_what_was_entered() {
    let mut form = TuiForm::new("t".to_string());
    let mut name = field("name", "string", true);
    name.value = "Ann".to_string();
    let mut age = field("age", "integer", false);
    age.value = "30".to_string();
    let mut nick = field("nick", "string", false);
    nick.value = "  ".to_string();
    let mut tags = field("tags", "array", false);
    tags.value = "[1]".to_string();
    let mut again = field("name", "string", false);
    again.value = "Bob".to_string();
    for f in [name, age, nick, tags, again] {
        form.add_field(f);
    }
    assert_eq!(
        json(&form.to_json(NOW, &Vec::new()).unwrap()),
        r#"{"age":30,"name":"Bob","tags":[1]}"#
    );
    let mut empty = TuiForm::new("t".to_string());
    empty.add_field(field("must", "string", true));
    let e = empty.to_json(NOW, &Vec::new()).unwrap_err();
    assert_eq!(e.kind(), ErrorKind::Validation);
    assert_eq!(e.detail(), "Required field 'must' cannot be empty");
    assert_eq!(json(&TuiForm::new("t".to_string()).to_json(NOW, &Vec::new()).unwrap()), "{}");
}

#[test]
fn a_generated_value_never_replaces_an_entered_one() {
    let s = schema(vec![
        info("name", "string", true, None),
        info("created_at", "timestamp", true, Some(AutoFieldType::CreatedAt)),
        info("updated_at", "timestamp", true, Some(AutoFieldType::UpdatedAt)),
        info("seq", "integer", false, Some(AutoFieldType::Sequence)),
    ]);
    let generated = vec![
        ("created_at".to_string(), JsonValue::String("GEN-C".to_string())),
        ("updated_at".to_string(), JsonValue::String("GEN-U".to_string())),
        ("name".to_string(), JsonValue::String("GEN-N".to_string())),
    ];
    let mut form = TuiForm::from_schema("people", &s);
    assert_eq!(form.fields.len(), 1);
    form.fields[0].value = "Ann".to_string();
    let mut explicit = field("created_at", "string", false);
    explicit.value = "mine".to_string();
    form.add_field(explicit);
    let doc = form.to_json(NOW, &generated).unwrap();
    assert_eq!(doc.get("created_at").unwrap().as_str(), Some("mine"));
    assert_eq!(doc.get("updated_at").unwrap().as_str(), Some("GEN-U"));
    assert_eq!(doc.get("name").unwrap().as_str(), Some("Ann"));
    assert!(doc.get("seq").is_none());
    assert!(matches!(doc.get("age"), None));
    assert!(!matches!(doc.get("name"), Some(JsonValue::Number(JsonNumber::Integer(_)))));
}
