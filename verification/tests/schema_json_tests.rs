use firebase_db::error::ErrorKind;
use firebase_db::json::{parse_json, to_json_text};
use firebase_db::models::{FirestoreValue, ToFirestore};
use firebase_db::schema::{
    Collection, Field, FieldType, Index, IndexField, IndexOrder, SchemaManager, ValidationRule,
    ValidationRuleType,
};
use firebase_db::schema_json::{collections_from_json, collections_to_json, CollectionMetadata};
use firebase_db::time::Timestamp;
use firebase_db::{FirebaseClient, HttpMethod};

fn client() -> FirebaseClient {
    FirebaseClient::new("demo".to_string(), "KEY".to_string())
}

fn collection() -> Collection {
    Collection {
        name: "users".to_string(),
        fields: vec![
            Field {
                name: "name".to_string(),
                field_type: FieldType::String,
                required: true,
                default_value: None,
                description: Some("Full name".to_string()),
            },
            Field {
                name: "tags".to_string(),
                field_type: FieldType::Mapping,
                required: false,
                default_value: Some(FirestoreValue::ArrayValue {
                    values: vec![FirestoreValue::IntegerValue("1".to_string())],
                }),
                description: None,
            },
        ],
        indexes: vec![Index {
            fields: vec![IndexField {
                field_path: "name".to_string(),
                order: IndexOrder::Descending,
            }],
            unique: true,
        }],
        validation_rules: vec![
            ValidationRule { field: "name".to_string(), rule: ValidationRuleType::MinLength(2) },
            ValidationRule { field: "name".to_string(), rule: ValidationRuleType::Email },
            ValidationRule {
                field: "age".to_string(),
                rule: ValidationRuleType::Max("120.5".to_string()),
            },
            ValidationRule {
                field: "name".to_string(),
                rule: ValidationRuleType::Regex("^A".to_string()),
            },
        ],
    }
}

fn users_json() -> String {
    [
    r#"{"users":{"fields":["#,
    r#"{"default_value":null,"description":"Full name","field_type":"String","name":"name","required":true},"#,
    r#"{"default_value":{"arrayValue":{"values":[{"integerValue":"1"}]}},"description":null,"field_type":"Map","name":"tags","required":false}"#,
    r#"],"indexes":[{"fields":[{"field_path":"name","order":"Descending"}],"unique":true}],"#,
    r#""name":"users","validation_rules":["#,
    r#"{"field":"name","rule":{"MinLength":2}},"#,
    r#"{"field":"name","rule":"Email"},"#,
    r#"{"field":"age","rule":{"Max":120.5}},"#,
    r#"{"field":"name","rule":{"Regex":"^A"}}"#,
    r#"]}}"#,
    ]
    .concat()
}

#[test]
fn declared_collections_are_written_as_json() {
    let text = to_json_text(&collections_to_json(&vec![collection()])).unwrap();
    assert_eq!(text, users_json());
}

#[test]
fn declared_collections_are_read_back_as_they_were_written() {
    let read = collections_from_json(&parse_json(&users_json()).unwrap()).unwrap();
    assert_eq!(read.len(), 1);
    assert_eq!(to_json_text(&collections_to_json(&read)).unwrap(), users_json());
    let c = &read[0];
    assert_eq!(c.fields[1].field_type, FieldType::Mapping);
    assert!(matches!(c.fields[1].default_value, Some(FirestoreValue::ArrayValue { .. })));
    assert!(c.fields[0].default_value.is_none());
    assert_eq!(c.indexes[0].fields[0].order, IndexOrder::Descending);
    match &c.validation_rules[2].rule {
        ValidationRuleType::Max(t) => assert_eq!(t, "120.5"),
        _ => panic!("must be a maximum"),
    }
}

#[test]
fn what_is_no_collection_is_a_serde_error() {
    for text in [
        "[]",
        r#"{"a":1}"#,
        r#"{"a":{"name":"a","fields":[],"indexes":[]}}"#,
        r#"{"a":{"name":"a","fields":[{"name":"x","field_type":"Blob","required":true}],"indexes":[],"validation_rules":[]}}"#,
        r#"{"a":{"name":"a","fields":[],"indexes":[{"fields":[{"field_path":"x","order":"asc"}],"unique":true}],"validation_rules":[]}}"#,
        r#"{"a":{"name":"a","fields":[],"indexes":[],"validation_rules":[{"field":"x","rule":"Phone"}]}}"#,
        r#"{"a":{"name":"a","fields":[],"indexes":[],"validation_rules":[{"field":"x","rule":{"MinLength":-1}}]}}"#,
    ] {
        let e = collections_from_json(&parse_json(text).unwrap()).unwrap_err();
        assert_eq!(e.kind(), ErrorKind::Serde, "on {}", text);
    }
}

#[test]
fn a_schema_manager_exports_and_imports_its_collections() {
    let mut m = SchemaManager::new(client());
    m.define_collection(collection());
    let text = m.export_schema();
    assert!(text.starts_with("{\n  \"users\": {"));
    let mut other = SchemaManager::new(client());
    other.define_collection(Collection {
        name: "old".to_string(),
        fields: Vec::new(),
        indexes: Vec::new(),
        validation_rules: Vec::new(),
    });
    other.import_schema(&text).unwrap();
    assert_eq!(other.defined_collections().len(), 1);
    assert_eq!(other.export_schema(), text);
    let e = other.import_schema("not json").unwrap_err();
    assert_eq!(e.kind(), ErrorKind::Serde);
    assert_eq!(other.defined_collections().len(), 1);
    assert_eq!(SchemaManager::new(client()).export_schema(), "{}");
}

#[test]
fn each_defined_collection_is_recorded_in_the_store() {
    let mut m = SchemaManager::new(client());
    m.define_collection(collection());
    let now = Timestamp::from_parts(1_700_000_000, 0).unwrap();
    let requests = m.initialize_collections(now);
    assert_eq!(requests.len(), 1);
    assert_eq!(requests[0].method, HttpMethod::Post);
    assert_eq!(
        requests[0].url,
        "https://firestore.googleapis.com/v1/projects/demo/databases/(default)/documents/_metadata_collections?key=KEY"
    );
    let body = to_json_text(requests[0].body.as_ref().unwrap()).unwrap();
    assert!(body.contains(r#""name":{"stringValue":"users"}"#));
    assert!(body.contains(r#""created_at":{"timestampValue":"2023-11-14T22:13:20+00:00"}"#));
    assert!(body.contains(r#""indexes":{"stringValue":"[{\"fields\":[{\"field_path\":\"name\",\"order\":\"Descending\"}],\"unique\":true}]"}"#));
    let record = CollectionMetadata::new(&collection(), now);
    assert_eq!(record.name, "users");
    assert_eq!(
        record.validation_rules,
        r#"[{"field":"name","rule":{"MinLength":2}},{"field":"name","rule":"Email"},{"field":"age","rule":{"Max":120.5}},{"field":"name","rule":{"Regex":"^A"}}]"#
    );
    let fields = record.to_firestore();
    let names: Vec<&str> = fields.iter().map(|(k, _)| k.as_str()).collect();
    assert_eq!(names, vec!["name", "created_at", "fields", "indexes", "validation_rules"]);
    assert!(SchemaManager::new(client()).initialize_collections(now).is_empty());
}

#[test]
fn a_reader_of_declared_collections_names_what_is_malformed() {
    let e = Field::from_json(&parse_json(r#"{"name":"x","required":true}"#).unwrap()).unwrap_err();
    assert_eq!(e.kind(), ErrorKind::Serde);
    assert_eq!(e.detail(), "missing or malformed `field_type`");
    let e = IndexField::from_json(&parse_json(r#"{"field_path":"x","order":"Up"}"#).unwrap())
        .unwrap_err();
    assert_eq!(e.detail(), "missing or malformed `order`");
    let e = collections_from_json(&parse_json("[]").unwrap()).unwrap_err();
    assert_eq!(e.message(), "JSON serialization/deserialization failed: missing or malformed `collections`");
}
