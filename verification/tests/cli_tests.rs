use firebase_db::cli::{
    add_automatic_timestamps, add_timestamps_to_document, add_updated_timestamp, count_fields,
    display_document_yaml, format_cell, format_cell_under, format_json_value_compact,
    format_listing_value, parse_field_arguments, parse_field_value_with_inference,
    parse_json_or_yaml, table_headings, text_stands_before,
};
use firebase_db::error::ErrorKind;
use firebase_db::json::{parse_json, parse_yaml, to_json_text, JsonValue};

const NOW: &str = "2024-06-01T12:00:00+00:00";

fn json(v: &JsonValue) -> String {
    to_json_text(v).unwrap()
}

fn inferred(text: &str) -> String {
    json(&parse_field_value_with_inference(text, NOW).unwrap())
}

fn arguments(texts: &[&str]) -> Vec<String> {
    texts.iter().map(|t| t.to_string()).collect()
}

#[test]
fn the_kind_of_a_value_is_read_off_its_text() {
    assert_eq!(inferred(""), r#""""#);
    assert_eq!(inferred("   "), r#""""#);
    assert_eq!(inferred("null"), "null");
    assert_eq!(inferred("None"), "null");
    assert_eq!(inferred("TRUE"), "true");
    assert_eq!(inferred("yes"), "true");
    assert_eq!(inferred("false"), "false");
    assert_eq!(inferred("No"), "false");
    assert_eq!(inferred("[1, 2]"), "[1,2]");
    assert_eq!(inferred(r#" {"a": [true]} "#), r#"{"a":[true]}"#);
    assert_eq!(inferred(r#""John Doe""#), r#""John Doe""#);
    assert_eq!(inferred("'30'"), r#""30""#);
    assert_eq!(inferred("\"\""), r#""""#);
    assert_eq!(inferred("30"), "30");
    assert_eq!(inferred("-30"), "-30");
    assert_eq!(inferred("+30"), "30");
    assert_eq!(inferred("29.99"), "29.99");
    assert_eq!(inferred("1e2"), "100.0");
    assert_eq!(inferred("2024-01-01T00:00:00Z"), r#""2024-01-01T00:00:00Z""#);
    assert_eq!(inferred("2024-01-01 00:00:00"), r#""2024-01-01 00:00:00""#);
    assert_eq!(inferred("now"), format!("\"{}\"", NOW));
    assert_eq!(inferred("NOW"), format!("\"{}\"", NOW));
    assert_eq!(inferred("  John  "), r#""John""#);
    assert_eq!(inferred("\""), r#""\"""#);
    assert_eq!(inferred("1"), "1");
    assert_eq!(inferred("0"), "0");
}

#[test]
fn broken_json_in_brackets_is_refused() {
    let e = parse_field_value_with_inference("[1, 2", NOW);
    assert_eq!(json(&e.unwrap()), r#""[1, 2""#);
    let e = parse_field_value_with_inference(" [1, 2,] ", NOW).unwrap_err();
    assert_eq!(e.kind(), ErrorKind::Validation);
    assert!(e.detail().starts_with("Invalid JSON in '[1, 2,]': "));
    let e = parse_field_value_with_inference("{a}", NOW).unwrap_err();
    assert!(e.detail().starts_with("Invalid JSON in '{a}': "));
}

#[test]
fn arguments_give_the_members_of_a_document() {
    let doc = parse_field_arguments(
        &arguments(&["name=John Doe", "age = 30", "active:true", "tags=[\"a\"]", "note=a=b:c"]),
        NOW,
    )
    .unwrap();
    assert_eq!(
        json(&doc),
        r#"{"active":true,"age":30,"name":"John Doe","note":"a=b:c","tags":["a"]}"#
    );
    let doc = parse_field_arguments(&arguments(&["a=1", "b=2", "a=3"]), NOW).unwrap();
    assert_eq!(json(&doc), r#"{"a":3,"b":2}"#);
    let doc = parse_field_arguments(&arguments(&["when:now", "url=http://x"]), NOW).unwrap();
    assert_eq!(doc.get("when").unwrap().as_str(), Some(NOW));
    assert_eq!(doc.get("url").unwrap().as_str(), Some("http://x"));
    let doc = parse_field_arguments(&arguments(&["t:12:30"]), NOW).unwrap();
    assert_eq!(json(&doc), r#"{"t":"12:30"}"#);
}

#[test]
fn arguments_that_cannot_be_taken_are_refused() {
    let e = parse_field_arguments(&arguments(&["a=1", "nonsense"]), NOW).unwrap_err();
    assert_eq!(e.kind(), ErrorKind::Validation);
    assert_eq!(e.detail(), "Invalid field format 'nonsense'. Use 'key=value' or 'key:value'");
    let e = parse_field_arguments(&arguments(&[" =5"]), NOW).unwrap_err();
    assert_eq!(e.detail(), "Empty field name in ' =5'");
    let e = parse_field_arguments(&arguments(&["a=[1"]), NOW);
    assert!(e.is_ok());
    let e = parse_field_arguments(&arguments(&["a=[1,]", "b"]), NOW).unwrap_err();
    assert!(e.detail().starts_with("Invalid JSON in '[1,]': "));
    let e = parse_field_arguments(&Vec::new(), NOW).unwrap_err();
    assert_eq!(e.kind(), ErrorKind::Validation);
    assert_eq!(e.detail(), "No valid fields provided");
}

#[test]
fn every_write_carries_its_time_stamps() {
    let doc = add_timestamps_to_document(parse_json(r#"{"a": 1}"#).unwrap(), NOW);
    assert_eq!(
        json(&doc),
        format!(r#"{{"a":1,"created_at":"{}","updated_at":"{}"}}"#, NOW, NOW)
    );
    let doc = add_timestamps_to_document(
        parse_json(r#"{"created_at": "then", "updated_at": "then"}"#).unwrap(),
        NOW,
    );
    assert_eq!(json(&doc), format!(r#"{{"created_at":"then","updated_at":"{}"}}"#, NOW));
    let doc = add_updated_timestamp(parse_json(r#"{"a": 1}"#).unwrap(), NOW);
    assert_eq!(json(&doc), format!(r#"{{"a":1,"updated_at":"{}"}}"#, NOW));
    assert_eq!(json(&add_timestamps_to_document(parse_json("[1]").unwrap(), NOW)), "[1]");
    assert_eq!(json(&add_updated_timestamp(parse_json("7").unwrap(), NOW)), "7");
    let mut members = vec![("z".to_string(), JsonValue::Null)];
    add_automatic_timestamps(&mut members, NOW);
    let names: Vec<&str> = members.iter().map(|(k, _)| k.as_str()).collect();
    assert_eq!(names, vec!["z", "created_at", "updated_at"]);
}

#[test]
fn a_text_is_read_as_json_or_else_as_yaml() {
    assert_eq!(json(&parse_json_or_yaml(r#"{"a": 1}"#).unwrap()), r#"{"a":1}"#);
    assert_eq!(
        json(&parse_json_or_yaml("name: Ann\nage: 30\ntags:\n  - a\n  - b\n").unwrap()),
        r#"{"age":30,"name":"Ann","tags":["a","b"]}"#
    );
    assert_eq!(json(&parse_json_or_yaml("just text").unwrap()), r#""just text""#);
    let e = parse_json_or_yaml("a: [1, 2").unwrap_err();
    assert_eq!(e.kind(), ErrorKind::Validation);
    assert!(e.detail().starts_with("Failed to parse as JSON: "));
    assert!(e.detail().contains(". Failed to parse as YAML: "));
    assert_eq!(json(&parse_yaml("x: 1.5").unwrap()), r#"{"x":1.5}"#);
    assert_eq!(parse_yaml("a: [1, 2").unwrap_err().kind(), ErrorKind::Serde);
}

#[test]
fn the_members_of_a_document_are_counted() {
    assert_eq!(count_fields(&parse_json(r#"{"a": 1, "b": {"c": 2}}"#).unwrap()), 2);
    assert_eq!(count_fields(&parse_json("{}").unwrap()), 0);
    assert_eq!(count_fields(&parse_json("[1, 2, 3]").unwrap()), 0);
}

#[test]
fn values_are_shown_in_a_few_characters() {
    let compact = |t: &str| format_json_value_compact(&parse_json(t).unwrap());
    assert_eq!(compact(r#""short""#), "\"short\"");
    assert_eq!(compact(r#""exactly twenty chars""#), "\"exactly twenty chars\"");
    assert_eq!(compact(r#""this one has twenty-one""#), "\"this one has twen...\"");
    assert_eq!(compact("12"), "12");
    assert_eq!(compact("1.5"), "1.5");
    assert_eq!(compact("true"), "true");
    assert_eq!(compact("[1, 2]"), "[2 items]");
    assert_eq!(compact(r#"{"a": 1}"#), "{1 fields}");
    assert_eq!(compact("null"), "null");
    let cell = |t: &str| format_cell(&parse_json(t).unwrap());
    assert_eq!(cell(r#""short""#), "short");
    let thirty = "a".repeat(30);
    assert_eq!(cell(&format!("\"{}\"", thirty)), thirty);
    assert_eq!(cell(&format!("\"{}b\"", thirty)), format!("{}...", "a".repeat(27)));
    assert_eq!(cell("[1, 2]"), "[2]");
    assert_eq!(cell(r#"{"a": 1}"#), "{1}");
    assert_eq!(cell("null"), "-");
    assert_eq!(cell("false"), "false");
    let doc = parse_json(r#"{"a": 5}"#).unwrap();
    assert_eq!(format_cell_under(&doc, "a"), "5");
    assert_eq!(format_cell_under(&doc, "b"), "-");
    let listing = |t: &str| format_listing_value(&parse_json(t).unwrap());
    assert_eq!(listing(r#""x""#), "\"x\"");
    assert_eq!(listing("[1]"), "[array]");
    assert_eq!(listing("{}"), "{object}");
    assert_eq!(listing("null"), "null");
}

#[test]
fn a_document_is_listed_member_by_member() {
    let doc = parse_json(r#"{"name": "Ann", "age": 30, "tags": [], "x": null}"#).unwrap();
    assert_eq!(
        display_document_yaml("d1", &doc),
        "\nDocument: d1\n---\nage: 30\nname: \"Ann\"\ntags: [array]\nx: null\n---\n"
    );
    assert_eq!(display_document_yaml("d2", &JsonValue::Null), "\nDocument: d2\n---\n---\n");
}

#[test]
fn table_headings_are_all_names_in_order() {
    let docs = vec![
        ("1".to_string(), parse_json(r#"{"name": "a", "zip": 1}"#).unwrap()),
        ("2".to_string(), parse_json(r#"{"age": 2, "name": "b", "Zeta": 0}"#).unwrap()),
        ("3".to_string(), parse_json("17").unwrap()),
        (
            "4".to_string(),
            JsonValue::Object(vec![
                ("b".to_string(), JsonValue::Null),
                ("a".to_string(), JsonValue::Null),
                ("b".to_string(), JsonValue::Null),
            ]),
        ),
    ];
    assert_eq!(table_headings(&docs), vec!["Zeta", "a", "age", "b", "name", "zip"]);
    assert!(table_headings(&Vec::new()).is_empty());
}

#[test]
fn texts_are_ordered_as_in_a_dictionary() {
    let words = ["", "a", "ab", "b", "B", "é", "z", "aa", "Zeta", "ä"];
    for a in words {
        for b in words {
            assert_eq!(text_stands_before(a, b), a < b, "{:?} before {:?}", a, b);
        }
    }
}
