use firebase_db::convert::{
    firestore_fields_to_json, firestore_value_to_json, json_to_firestore_fields,
    json_value_to_firestore,
};
use firebase_db::error::{ErrorKind, FirebaseError};
use firebase_db::json::{parse_json, to_json_text, JsonNumber, JsonValue};
use firebase_db::models::FirestoreValue;
use firebase_db::wire::{decode_value, encode_value};

fn same_json(a: &JsonValue, b: &JsonValue) -> bool {
    to_json_text(a).is_some() && to_json_text(a) == to_json_text(b)
}

fn same_wire(a: &FirestoreValue, b: &FirestoreValue) -> bool {
    same_json(&encode_value(a), &encode_value(b))
}

fn text(s: &str) -> JsonValue {
    JsonValue::String(s.to_string())
}

fn integer(i: i64) -> JsonValue {
    JsonValue::Number(JsonNumber::Integer(i))
}

fn object(entries: Vec<(&str, JsonValue)>) -> JsonValue {
    JsonValue::Object(entries.into_iter().map(|(k, v)| (k.to_string(), v)).collect())
}

#[test]
fn parse_json_reads_every_kind_of_value() {
    let v = parse_json(r#"{"a": [1, 2.5, "x", true, null], "b": {"c": -7}}"#).unwrap();
    let a = v.get("a").unwrap().as_array().unwrap();
    assert!(matches!(a[0], JsonValue::Number(JsonNumber::Integer(1))));
    match &a[1] {
        JsonValue::Number(JsonNumber::Double(t)) => assert_eq!(t, "2.5"),
        _ => panic!("2.5 must be a double"),
    }
    assert_eq!(a[2].as_str(), Some("x"));
    assert!(matches!(a[3], JsonValue::Bool(true)));
    assert!(matches!(a[4], JsonValue::Null));
    let c = v.get("b").unwrap().get("c").unwrap();
    assert!(matches!(c, JsonValue::Number(JsonNumber::Integer(-7))));
}

#[test]
fn parse_json_keeps_large_unsigned_integers_apart() {
    let v = parse_json("18446744073709551615").unwrap();
    assert!(matches!(v, JsonValue::Number(JsonNumber::Unsigned(18446744073709551615))));
    let v = parse_json("9223372036854775807").unwrap();
    assert!(matches!(v, JsonValue::Number(JsonNumber::Integer(9223372036854775807))));
}

#[test]
fn parse_json_fails_with_a_serde_error() {
    let e = parse_json("{not json").unwrap_err();
    assert_eq!(e.kind(), ErrorKind::Serde);
    assert!(!e.detail().is_empty());
}

#[test]
fn to_json_text_is_compact() {
    let v = object(vec![("name", text("Ann")), ("age", integer(30))]);
    assert_eq!(to_json_text(&v).unwrap(), r#"{"age":30,"name":"Ann"}"#);
}

#[test]
fn to_json_text_refuses_a_double_that_is_no_number() {
    let v = JsonValue::Number(JsonNumber::Double("abc".to_string()));
    assert!(to_json_text(&v).is_none());
}

#[test]
fn dynamic_values_round_trip_through_the_store_values() {
    let v = parse_json(
        r#"{"name": "Ann", "age": 30, "score": 2.5, "ok": true, "none": null,
            "tags": ["a", "b", [1, -2]], "nested": {"deep": {"n": -9223372036854775808}}}"#,
    )
    .unwrap();
    let back = firestore_value_to_json(&json_value_to_firestore(&v));
    assert!(same_json(&v, &back));
}

#[test]
fn integers_travel_as_decimal_text() {
    match json_value_to_firestore(&integer(-42)) {
        FirestoreValue::IntegerValue(s) => assert_eq!(s, "-42"),
        _ => panic!("an integer must become an integer value"),
    }
    match json_value_to_firestore(&integer(i64::MIN)) {
        FirestoreValue::IntegerValue(s) => assert_eq!(s, "-9223372036854775808"),
        _ => panic!("an integer must become an integer value"),
    }
}

#[test]
fn an_unsigned_integer_beyond_the_signed_range_becomes_a_double() {
    let v = JsonValue::Number(JsonNumber::Unsigned(u64::MAX));
    match json_value_to_firestore(&v) {
        FirestoreValue::DoubleValue(t) => assert_eq!(t, "1.8446744073709552e+19"),
        _ => panic!("must become a double value"),
    }
}

#[test]
fn an_integer_value_beyond_64_bits_keeps_its_text() {
    let v = firestore_value_to_json(&FirestoreValue::IntegerValue(
        "99999999999999999999".to_string(),
    ));
    assert_eq!(v.as_str(), Some("99999999999999999999"));
    let v = firestore_value_to_json(&FirestoreValue::IntegerValue(
        "9223372036854775808".to_string(),
    ));
    assert_eq!(v.as_str(), Some("9223372036854775808"));
    let v = firestore_value_to_json(&FirestoreValue::IntegerValue("12x".to_string()));
    assert_eq!(v.as_str(), Some("12x"));
    let v = firestore_value_to_json(&FirestoreValue::IntegerValue(
        "9223372036854775807".to_string(),
    ));
    assert!(matches!(v, JsonValue::Number(JsonNumber::Integer(i64::MAX))));
    let v = firestore_value_to_json(&FirestoreValue::IntegerValue(
        "-9223372036854775808".to_string(),
    ));
    assert!(matches!(v, JsonValue::Number(JsonNumber::Integer(i64::MIN))));
}

#[test]
fn an_unknown_value_reads_as_a_fixed_text() {
    let v = firestore_value_to_json(&FirestoreValue::Unknown);
    assert_eq!(v.as_str(), Some("(unknown value type)"));
}

#[test]
fn a_timestamp_value_reads_as_its_text() {
    let v = firestore_value_to_json(&FirestoreValue::TimestampValue(
        "2024-01-01T00:00:00Z".to_string(),
    ));
    assert_eq!(v.as_str(), Some("2024-01-01T00:00:00Z"));
}

#[test]
fn only_an_object_has_fields() {
    let e = json_to_firestore_fields(&integer(1)).unwrap_err();
    assert_eq!(e.kind(), ErrorKind::Validation);
    assert_eq!(e.detail(), "Root value must be an object");
    assert_eq!(e.message(), "Validation failed: Root value must be an object");
    let fields = json_to_firestore_fields(&object(vec![("a", integer(1))])).unwrap();
    assert_eq!(fields.len(), 1);
    assert_eq!(fields[0].0, "a");
    let back = firestore_fields_to_json(&fields);
    assert!(same_json(&back, &object(vec![("a", integer(1))])));
}

#[test]
fn the_wire_shape_names_the_kind_of_each_value() {
    let v = FirestoreValue::MapValue {
        fields: vec![
            ("s".to_string(), FirestoreValue::StringValue("x".to_string())),
            ("i".to_string(), FirestoreValue::IntegerValue("42".to_string())),
            ("d".to_string(), FirestoreValue::DoubleValue("2.5".to_string())),
            ("b".to_string(), FirestoreValue::BooleanValue(true)),
            ("t".to_string(), FirestoreValue::TimestampValue("2024-01-01T00:00:00Z".to_string())),
            ("n".to_string(), FirestoreValue::NullValue),
            (
                "a".to_string(),
                FirestoreValue::ArrayValue { values: vec![FirestoreValue::BooleanValue(false)] },
            ),
        ],
    };
    let expected = concat_all(&[
        r#"{"mapValue":{"fields":{"#,
        r#""a":{"arrayValue":{"values":[{"booleanValue":false}]}},"#,
        r#""b":{"booleanValue":true},"#,
        r#""d":{"doubleValue":2.5},"#,
        r#""i":{"integerValue":"42"},"#,
        r#""n":{"nullValue":null},"#,
        r#""s":{"stringValue":"x"},"#,
        r#""t":{"timestampValue":"2024-01-01T00:00:00Z"}"#,
        r#"}}}"#,
    ]);
    assert_eq!(to_json_text(&encode_value(&v)).unwrap(), expected);
    assert!(same_wire(&decode_value(&encode_value(&v)), &v));
}

fn concat_all(parts: &[&str]) -> String {
    parts.concat()
}

#[test]
fn what_is_not_understood_decodes_as_unknown() {
    let j = parse_json(r#"{"geoPointValue": {"latitude": 1, "longitude": 2}}"#).unwrap();
    assert!(matches!(decode_value(&j), FirestoreValue::Unknown));
    let j = parse_json(r#"{"stringValue": 5}"#).unwrap();
    assert!(matches!(decode_value(&j), FirestoreValue::Unknown));
    let j = parse_json(r#"[1]"#).unwrap();
    assert!(matches!(decode_value(&j), FirestoreValue::Unknown));
}

#[test]
fn a_map_or_an_array_without_content_decodes_as_empty() {
    let j = parse_json(r#"{"mapValue": {}}"#).unwrap();
    match decode_value(&j) {
        FirestoreValue::MapValue { fields } => assert!(fields.is_empty()),
        _ => panic!("must be a map"),
    }
    let j = parse_json(r#"{"arrayValue": {}}"#).unwrap();
    match decode_value(&j) {
        FirestoreValue::ArrayValue { values } => assert!(values.is_empty()),
        _ => panic!("must be an array"),
    }
}

#[test]
fn a_double_value_may_come_as_a_whole_number() {
    let j = parse_json(r#"{"doubleValue": 3}"#).unwrap();
    match decode_value(&j) {
        FirestoreValue::DoubleValue(t) => assert_eq!(t, "3"),
        _ => panic!("must be a double"),
    }
}

#[test]
fn every_kind_of_error_has_its_message() {
    let cases = vec![
        (FirebaseError::RequestError("x".to_string()), ErrorKind::Request, "HTTP request failed: x"),
        (
            FirebaseError::SerdeError("x".to_string()),
            ErrorKind::Serde,
            "JSON serialization/deserialization failed: x",
        ),
        (FirebaseError::IoError("x".to_string()), ErrorKind::Io, "IO operation failed: x"),
        (FirebaseError::NotFound("x".to_string()), ErrorKind::NotFound, "Document not found: x"),
        (FirebaseError::AuthError("x".to_string()), ErrorKind::Auth, "Authentication failed: x"),
        (FirebaseError::ConfigError("x".to_string()), ErrorKind::Config, "Invalid configuration: x"),
        (
            FirebaseError::DatabaseError("x".to_string()),
            ErrorKind::Database,
            "Database operation failed: x",
        ),
        (
            FirebaseError::ValidationError("x".to_string()),
            ErrorKind::Validation,
            "Validation failed: x",
        ),
    ];
    for (error, kind, message) in cases {
        assert_eq!(error.kind(), kind);
        assert_eq!(error.detail(), "x");
        assert_eq!(error.message(), message);
    }
}

#[test]
fn only_an_object_has_entries_and_only_an_array_has_items() {
    let object = parse_json("{\"a\": 1, \"b\": [true]}").unwrap();
    let entries = object.as_object().unwrap();
    assert_eq!(entries.len(), 2);
    assert_eq!(entries[0].0, "a");
    assert!(object.as_array().is_none());
    let items = entries[1].1.as_array().unwrap();
    assert_eq!(items.len(), 1);
    assert!(entries[1].1.as_object().is_none());
    assert!(JsonValue::Null.as_object().is_none());
}
