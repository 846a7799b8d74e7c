use firebase_db::collections::{
    analyze_firestore_field, collect_stats, convert_firestore_doc_to_json,
    convert_firestore_value_to_json, default_candidates, describe_documents, detect_auto_field,
    format_size_estimate, rank_collections, AutoFieldType, CollectionInfo, CollectionManager,
};
use firebase_db::error::ErrorKind;
use firebase_db::json::{parse_json, to_json_text, JsonValue};
use firebase_db::{FirebaseClient, HttpMethod, HttpResponse};

const BASE: &str = "https://firestore.googleapis.com/v1/projects/demo/databases/(default)/documents";

fn client() -> FirebaseClient {
    FirebaseClient::new("demo".to_string(), "KEY".to_string())
}

fn response(status: u16, body: &str) -> HttpResponse {
    HttpResponse { status, body: body.to_string() }
}

fn documents(texts: &[&str]) -> Vec<JsonValue> {
    texts.iter().map(|t| parse_json(t).unwrap()).collect()
}

fn sample_of_ten() -> Vec<JsonValue> {
    let mut docs = Vec::new();
    for i in 0..10 {
        let text = if i < 8 {
            format!(
                r#"{{"name":"c/d{}","fields":{{"name":{{"stringValue":"n{}"}},"age":{{"integerValue":"{}"}}}}}}"#,
                i,
                i,
                20 + i
            )
        } else {
            format!(r#"{{"name":"c/d{}","fields":{{"name":{{"stringValue":"n{}"}}}}}}"#, i, i)
        };
        docs.push(parse_json(&text).unwrap());
    }
    docs
}

fn info(name: &str, count: usize) -> CollectionInfo {
    CollectionInfo {
        name: name.to_string(),
        document_count: count,
        estimated_size: format_size_estimate(count),
        last_modified: None,
    }
}

#[test]
fn a_field_in_eight_of_ten_documents_is_not_required() {
    let schema = describe_documents("people", &sample_of_ten());
    assert_eq!(schema.collection_name, "people");
    assert_eq!(schema.total_documents, 10);
    assert_eq!(schema.fields.len(), 2);
    let age = schema.fields.iter().find(|f| f.name == "age").unwrap();
    assert!(!age.is_required);
    assert_eq!(age.frequency, 8);
    assert_eq!(age.field_type, "integer");
    let name = schema.fields.iter().find(|f| f.name == "name").unwrap();
    assert!(name.is_required);
    assert_eq!(name.frequency, 10);
    assert_eq!(name.field_type, "string");
}

#[test]
fn no_more_than_five_sample_values_are_kept() {
    let schema = describe_documents("people", &sample_of_ten());
    let name = schema.fields.iter().find(|f| f.name == "name").unwrap();
    assert_eq!(name.sample_values, vec!["\"n0\"", "\"n1\"", "\"n2\"", "\"n3\"", "\"n4\""]);
    assert_eq!(name.unique_values, 5);
    let age = schema.fields.iter().find(|f| f.name == "age").unwrap();
    assert_eq!(age.sample_values, vec!["20", "21", "22", "23", "24"]);
}

#[test]
fn a_field_of_several_kinds_is_mixed() {
    let docs = documents(&[
        r#"{"fields":{"x":{"stringValue":"a"},"created_at":{"timestampValue":"t"}}}"#,
        r#"{"fields":{"x":{"integerValue":"1"}}}"#,
        r#"{"fields":{"x":{"stringValue":"a"}}}"#,
        r#"{"fields":{"x":{"booleanValue":true}}}"#,
        r#"{"other":1}"#,
    ]);
    let schema = describe_documents("c", &docs);
    assert_eq!(schema.total_documents, 5);
    assert_eq!(schema.fields.len(), 2);
    let x = schema.fields.iter().find(|f| f.name == "x").unwrap();
    assert_eq!(x.field_type, "Mixed(string, integer, boolean)");
    assert_eq!(x.frequency, 4);
    assert!(!x.is_required);
    assert_eq!(x.sample_values, vec!["\"a\"", "1", "true"]);
    assert_eq!(x.unique_values, 3);
    assert_eq!(x.auto_field, None);
    let created = &schema.fields[0];
    assert_eq!(created.name, "created_at");
    assert_eq!(created.auto_field, Some(AutoFieldType::CreatedAt));
    assert_eq!(created.field_type, "timestamp");
    assert_eq!(created.frequency, 1);
}

#[test]
fn the_first_document_is_the_sample_document() {
    let docs = documents(&[
        r#"{"fields":{"n":{"integerValue":"7"},"tags":{"arrayValue":{"values":[{"stringValue":"a"}]}}}}"#,
        r#"{"fields":{"n":{"integerValue":"8"}}}"#,
    ]);
    let schema = describe_documents("c", &docs);
    assert_eq!(to_json_text(&schema.sample_document.unwrap()).unwrap(), r#"{"n":7,"tags":["a"]}"#);
    let empty = describe_documents("c", &Vec::new());
    assert!(empty.sample_document.is_none());
    assert_eq!(empty.total_documents, 0);
    assert!(empty.fields.is_empty());
}

#[test]
fn statistics_count_each_field_once_a_document() {
    let docs = vec![JsonValue::Object(vec![(
        "fields".to_string(),
        JsonValue::Object(vec![
            ("a".to_string(), parse_json(r#"{"stringValue":"x"}"#).unwrap()),
            ("a".to_string(), parse_json(r#"{"integerValue":"1"}"#).unwrap()),
        ]),
    )])];
    let stats = collect_stats(&docs);
    assert_eq!(stats.len(), 1);
    assert_eq!(stats[0].0, "a");
    assert_eq!(stats[0].1.frequency, 1);
    assert_eq!(stats[0].1.field_types, vec!["string"]);
}

#[test]
fn every_kind_of_value_is_analysed() {
    let cases = [
        (r#"{"stringValue":"hi"}"#, "string", "\"hi\""),
        (r#"{"integerValue":"42"}"#, "integer", "42"),
        (r#"{"doubleValue":2.5}"#, "double", "2.5"),
        (r#"{"booleanValue":false}"#, "boolean", "false"),
        (r#"{"timestampValue":"2020-05-05T00:00:00Z"}"#, "timestamp", "2024-01-01T00:00:00Z"),
        (r#"{"arrayValue":{"values":[]}}"#, "array", "[...]"),
        (r#"{"mapValue":{"fields":{}}}"#, "map", "{...}"),
        (r#"{"nullValue":null}"#, "null", "null"),
        (r#"{"geoPointValue":{}}"#, "unknown", "?"),
        (r#"17"#, "unknown", "?"),
    ];
    for (text, kind, sample) in cases {
        let (k, s) = analyze_firestore_field(&parse_json(text).unwrap());
        assert_eq!((k.as_str(), s.as_str()), (kind, sample), "on {}", text);
    }
}

#[test]
fn values_of_the_store_become_plain_values() {
    let cases = [
        (r#"{"stringValue":"hi"}"#, r#""hi""#),
        (r#"{"integerValue":"42"}"#, "42"),
        (r#"{"integerValue":"4x"}"#, r#""4x""#),
        (r#"{"doubleValue":2.5}"#, "2.5"),
        (r#"{"booleanValue":true}"#, "true"),
        (r#"{"timestampValue":"2020-05-05T00:00:00Z"}"#, r#""2020-05-05T00:00:00Z""#),
        (r#"{"nullValue":null}"#, "null"),
        (r#"{"what":1}"#, "null"),
        (r#"[1]"#, "null"),
        (
            r#"{"arrayValue":{"values":[{"integerValue":"1"},{"mapValue":{"fields":{"k":{"booleanValue":false}}}}]}}"#,
            r#"[1,{"k":false}]"#,
        ),
        (r#"{"arrayValue":{}}"#, "null"),
        (r#"{"mapValue":{"fields":{"a":{"arrayValue":{"values":[]}}}}}"#, r#"{"a":[]}"#),
    ];
    for (text, plain) in cases {
        let v = convert_firestore_value_to_json(&parse_json(text).unwrap());
        assert_eq!(to_json_text(&v).unwrap(), plain, "on {}", text);
    }
    let doc = parse_json(r#"{"name":"x","fields":{"a":{"stringValue":"b"}}}"#).unwrap();
    assert_eq!(to_json_text(&convert_firestore_doc_to_json(&doc)).unwrap(), r#"{"a":"b"}"#);
    let doc = parse_json(r#"{"name":"x"}"#).unwrap();
    assert_eq!(to_json_text(&convert_firestore_doc_to_json(&doc)).unwrap(), "null");
}

#[test]
fn describe_samples_one_page_of_at_most_a_hundred() {
    let m = CollectionManager::new(client());
    let r = m.describe_request("/users", 50);
    assert_eq!(r.method, HttpMethod::Get);
    assert_eq!(r.url, format!("{}/users?key=KEY&pageSize=50", BASE));
    assert_eq!(m.describe_request("users", 100).url, format!("{}/users?key=KEY&pageSize=100", BASE));
    assert_eq!(m.describe_request("users", 5000).url, format!("{}/users?key=KEY&pageSize=100", BASE));
    assert_eq!(m.describe_request("users", 0).url, format!("{}/users?key=KEY&pageSize=0", BASE));
    assert_eq!(m.collection_info_request("users").url, format!("{}/users?key=KEY&pageSize=1", BASE));
    assert_eq!(m.estimate_request("users").url, format!("{}/users?key=KEY&pageSize=100", BASE));
    assert_eq!(m.client().base_url, BASE);
}

#[test]
fn describe_reads_the_sample_or_says_what_is_wrong() {
    let body = r#"{"documents":[{"name":"c/1","fields":{"a":{"stringValue":"x"}}}]}"#;
    let schema = CollectionManager::describe_collection("c", &response(200, body)).unwrap();
    assert_eq!(schema.total_documents, 1);
    assert_eq!(schema.fields[0].name, "a");
    assert!(schema.fields[0].is_required);
    let e = CollectionManager::describe_collection("c", &response(404, "")).unwrap_err();
    assert_eq!(e.kind(), ErrorKind::NotFound);
    assert_eq!(e.detail(), "c");
    let e = CollectionManager::describe_collection("c", &response(200, "{}")).unwrap_err();
    assert_eq!(e.kind(), ErrorKind::NotFound);
    assert_eq!(e.detail(), "No documents found in collection c");
    let e =
        CollectionManager::describe_collection("c", &response(200, r#"{"documents":[]}"#)).unwrap_err();
    assert_eq!(e.kind(), ErrorKind::NotFound);
    let e = CollectionManager::describe_collection("c", &response(500, "oops")).unwrap_err();
    assert_eq!(e.kind(), ErrorKind::Database);
    assert_eq!(e.detail(), "Failed to describe collection: oops");
    let e = CollectionManager::describe_collection("c", &response(200, "oops")).unwrap_err();
    assert_eq!(e.kind(), ErrorKind::Serde);
}

#[test]
fn the_documents_of_a_page_are_counted() {
    let body = r#"{"documents":[{"name":"a"},{"name":"b"},{"name":"c"}]}"#;
    assert_eq!(CollectionManager::estimate_document_count(&response(200, body)), 3);
    assert_eq!(CollectionManager::estimate_document_count(&response(200, "{}")), 0);
    assert_eq!(CollectionManager::estimate_document_count(&response(200, "junk")), 0);
    assert_eq!(CollectionManager::estimate_document_count(&response(500, body)), 0);
}

#[test]
fn the_info_of_a_collection_shows_when_it_was_last_changed() {
    let body = r#"{"documents":[{"name":"a","updateTime":"2024-03-03T03:03:03Z"}]}"#;
    let i = CollectionManager::get_collection_info("users", &response(200, body), 3).unwrap();
    assert_eq!(i.name, "users");
    assert_eq!(i.document_count, 3);
    assert_eq!(i.estimated_size, "6.0KB");
    assert_eq!(i.last_modified.as_deref(), Some("2024-03-03T03:03:03Z"));
    let i = CollectionManager::get_collection_info("users", &response(200, "{}"), 0).unwrap();
    assert_eq!(i.estimated_size, "Empty");
    assert!(i.last_modified.is_none());
    let e = CollectionManager::get_collection_info("users", &response(404, ""), 0).unwrap_err();
    assert_eq!(e.kind(), ErrorKind::NotFound);
    assert_eq!(e.detail(), "users");
    let e = CollectionManager::get_collection_info("users", &response(500, "x"), 0).unwrap_err();
    assert_eq!(e.detail(), "Failed to get collection info: x");
    let e = CollectionManager::get_collection_info("users", &response(200, "x"), 0).unwrap_err();
    assert_eq!(e.kind(), ErrorKind::Serde);
}

#[test]
fn sizes_are_estimated_at_two_kilobytes_a_document() {
    assert_eq!(format_size_estimate(0), "Empty");
    assert_eq!(format_size_estimate(1), "2.0KB");
    assert_eq!(format_size_estimate(100), "200.0KB");
    assert_eq!(format_size_estimate(511), "1022.0KB");
    assert_eq!(format_size_estimate(512), "1.0MB");
    assert_eq!(format_size_estimate(1000), "2.0MB");
    assert_eq!(format_size_estimate(600_000), "1.1GB");
    for n in [1usize, 3, 100, 511, 512, 513, 640, 1000, 12345, 524_287, 524_288, 600_000, 99_999_999] {
        let bytes = n * 2048;
        let expected = if bytes < 1024 * 1024 {
            format!("{:.1}KB", bytes as f64 / 1024.0)
        } else if bytes < 1024 * 1024 * 1024 {
            format!("{:.1}MB", bytes as f64 / (1024.0 * 1024.0))
        } else {
            format!("{:.1}GB", bytes as f64 / (1024.0 * 1024.0 * 1024.0))
        };
        assert_eq!(format_size_estimate(n), expected, "for {} documents", n);
    }
}

#[test]
fn collections_are_ranked_by_size_and_the_empty_ones_left_out() {
    let ranked = rank_collections(vec![
        info("a", 3),
        info("b", 0),
        info("c", 10),
        info("d", 3),
        info("e", 7),
        info("f", 10),
    ]);
    let names: Vec<&str> = ranked.iter().map(|i| i.name.as_str()).collect();
    assert_eq!(names, vec!["c", "f", "e", "a", "d"]);
    assert!(rank_collections(Vec::new()).is_empty());
    let ranked = CollectionManager::list_collections(vec![info("x", 0), info("y", 1)]);
    assert_eq!(ranked.len(), 1);
    assert_eq!(ranked[0].name, "y");
}

#[test]
fn the_names_to_probe_can_be_brought_along() {
    assert_eq!(default_candidates().len(), 16);
    assert_eq!(default_candidates()[0], "users");
    assert_eq!(default_candidates()[15], "categories");
    let m = CollectionManager::new(client());
    let names = m.probe_names();
    assert_eq!(names.len(), 17);
    assert_eq!(names[16], "_metadata_collections");
    let m = CollectionManager::with_candidates(client(), vec!["mine".to_string()]);
    assert_eq!(m.probe_names(), vec!["mine", "_metadata_collections"]);
}

#[test]
fn only_the_two_time_stamps_fill_in_by_themselves() {
    assert_eq!(detect_auto_field("created_at"), Some(AutoFieldType::CreatedAt));
    assert_eq!(detect_auto_field("updated_at"), Some(AutoFieldType::UpdatedAt));
    assert_eq!(detect_auto_field("id"), None);
    assert_eq!(detect_auto_field("Created_At"), None);
}

#[test]
fn collections_and_schemas_are_shown_as_plain_text() {
    let text = CollectionManager::format_collections_table(&vec![info("users", 3), info("logs", 0)]);
    assert_eq!(text, "Collections:\n  users - 3 documents (6.0KB)\n  logs - 0 documents (Empty)\n");
    assert_eq!(CollectionManager::format_collections_table(&Vec::new()), "Collections:\n");
    let docs = documents(&[
        r#"{"fields":{"name":{"stringValue":"a"},"age":{"integerValue":"1"}}}"#,
        r#"{"fields":{"name":{"stringValue":"b"}}}"#,
    ]);
    let schema = describe_documents("people", &docs);
    let expected = [
        "Collection: people (2 documents)\n\nFields:\n",
        "  age (integer) - 1 occurrences\n",
        "    Samples: 1\n",
        "  name (string) *required - 2 occurrences\n",
        "    Samples: \"a\", \"b\"\n",
    ]
    .concat();
    assert_eq!(CollectionManager::format_schema_table(&schema), expected);
}
