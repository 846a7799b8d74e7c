use firebase_db::collections::describe_documents;
use firebase_db::error::ErrorKind;
use firebase_db::json::{parse_json, to_json_text, to_json_text_pretty, JsonNumber, JsonValue};
use firebase_db::json_manager::{
    backup_file_name, convert_collection_schema_to_json, convert_from_json_collection,
    convert_from_json_field, convert_from_json_index, convert_from_json_validation_rule,
    example_schema, export_collection_raw, DataExport, JsonCollection, JsonField, JsonIndex,
    JsonIndexField, JsonSchema, JsonSchemaManager, JsonValidationRule,
};
use firebase_db::models::FirestoreValue;
use firebase_db::schema::{Collection, FieldType, IndexOrder, ValidationRuleType};
use firebase_db::{FirebaseClient, HttpResponse};

fn client() -> FirebaseClient {
    FirebaseClient::new("demo".to_string(), "KEY".to_string())
}

fn json_field(name: &str, field_type: &str) -> JsonField {
    JsonField {
        name: name.to_string(),
        field_type: field_type.to_string(),
        required: true,
        default_value: None,
        description: None,
    }
}

fn json_rule(rule_type: &str, value: Option<JsonValue>) -> JsonValidationRule {
    JsonValidationRule {
        field: "f".to_string(),
        rule_type: rule_type.to_string(),
        value,
        description: None,
    }
}

fn number(n: i64) -> Option<JsonValue> {
    Some(JsonValue::Number(JsonNumber::Integer(n)))
}

#[test]
fn the_example_schema_has_users_and_posts() {
    let schema = example_schema();
    assert_eq!(schema.version, "1.0.0");
    assert_eq!(schema.collections.len(), 2);
    let (key, users) = &schema.collections[0];
    assert_eq!(key, "users");
    assert_eq!(users.name, "users");
    assert_eq!(users.description.as_deref(), Some("User accounts"));
    let names: Vec<&str> = users.fields.iter().map(|f| f.name.as_str()).collect();
    assert_eq!(names, vec!["id", "name", "email", "age", "active", "created_at", "tags", "profile"]);
    let types: Vec<&str> = users.fields.iter().map(|f| f.field_type.as_str()).collect();
    assert_eq!(
        types,
        vec!["string", "string", "string", "integer", "boolean", "timestamp", "array", "map"]
    );
    assert!(!users.fields[0].required);
    assert!(users.fields[1].required);
    assert!(matches!(
        users.fields[3].default_value,
        Some(JsonValue::Number(JsonNumber::Integer(18)))
    ));
    assert_eq!(users.indexes.len(), 2);
    assert!(users.indexes[0].unique);
    assert_eq!(users.indexes[1].fields[1].field_path, "created_at");
    assert_eq!(users.indexes[1].fields[1].order, "desc");
    assert_eq!(users.validation_rules.len(), 5);
    assert_eq!(users.validation_rules[1].rule_type, "min");
    assert!(matches!(
        users.validation_rules[1].value,
        Some(JsonValue::Number(JsonNumber::Integer(13)))
    ));
    let (key, posts) = &schema.collections[1];
    assert_eq!(key, "posts");
    assert_eq!(posts.fields.len(), 5);
    assert_eq!(posts.indexes.len(), 1);
    assert_eq!(posts.validation_rules.len(), 3);
    assert_eq!(posts.validation_rules[2].field, "content");
}

#[test]
fn the_example_schema_can_be_written_read_and_applied() {
    let text = to_json_text_pretty(&example_schema().to_json()).unwrap();
    assert!(text.contains("\"version\": \"1.0.0\""));
    let back = JsonSchema::from_text(&text).unwrap();
    assert_eq!(to_json_text(&back.to_json()), to_json_text(&example_schema().to_json()));
    let mut manager = JsonSchemaManager::new(client());
    manager.import_schema(&text).unwrap();
    let schemas = manager.get_schema_manager();
    let names: Vec<&str> = schemas.defined_collections().iter().map(|c| c.name.as_str()).collect();
    assert_eq!(names, vec!["posts", "users"]);
    let users = schemas.get_collection("users").unwrap();
    assert_eq!(users.fields.len(), 8);
    assert_eq!(users.fields[7].field_type, FieldType::Mapping);
    assert!(matches!(
        users.fields[4].default_value,
        Some(FirestoreValue::BooleanValue(true))
    ));
    assert_eq!(users.indexes[1].fields[1].order, IndexOrder::Descending);
    assert!(matches!(users.validation_rules[0].rule, ValidationRuleType::Email));
    match &users.validation_rules[1].rule {
        ValidationRuleType::Min(t) => assert_eq!(t, "13"),
        _ => panic!("must be a minimum"),
    }
    match &users.validation_rules[3].rule {
        ValidationRuleType::MinLength(n) => assert_eq!(*n, 2),
        _ => panic!("must be a minimum length"),
    }
    assert_eq!(manager.get_client().api_key, "KEY");
}

#[test]
fn a_text_that_is_no_schema_is_a_serde_error() {
    let mut manager = JsonSchemaManager::new(client());
    for text in ["", "[]", "{}", r#"{"version":"1"}"#, r#"{"version":1,"collections":{}}"#] {
        let e = manager.import_schema(text).unwrap_err();
        assert_eq!(e.kind(), ErrorKind::Serde, "on {:?}", text);
    }
    let no_fields = r#"{"version":"1","collections":{"a":{"name":"a","indexes":[],"validation_rules":[]}}}"#;
    assert_eq!(JsonSchema::from_text(no_fields).unwrap_err().kind(), ErrorKind::Serde);
    assert!(manager.get_schema_manager().defined_collections().is_empty());
    assert!(manager.import_schema(r#"{"version":"1","collections":{}}"#).is_ok());
}

#[test]
fn what_is_of_an_unknown_kind_stops_the_import() {
    let text = r#"{"version":"1","collections":{
        "a":{"name":"a","fields":[{"name":"x","field_type":"string","required":true}],"indexes":[],"validation_rules":[]},
        "b":{"name":"b","fields":[{"name":"x","field_type":"blob","required":true}],"indexes":[],"validation_rules":[]},
        "c":{"name":"c","fields":[],"indexes":[],"validation_rules":[]}}}"#;
    let mut manager = JsonSchemaManager::new(client());
    let e = manager.import_schema(text).unwrap_err();
    assert_eq!(e.kind(), ErrorKind::Config);
    assert_eq!(e.detail(), "Unknown field type: blob");
    let names: Vec<&str> = manager
        .get_schema_manager()
        .defined_collections()
        .iter()
        .map(|c| c.name.as_str())
        .collect();
    assert_eq!(names, vec!["a"]);
}

#[test]
fn field_types_are_named_by_their_words() {
    let words = ["string", "integer", "double", "boolean", "timestamp", "map", "array", "reference"];
    let types = [
        FieldType::String,
        FieldType::Integer,
        FieldType::Double,
        FieldType::Boolean,
        FieldType::Timestamp,
        FieldType::Mapping,
        FieldType::Array,
        FieldType::Reference,
    ];
    for (word, t) in words.iter().zip(types.iter()) {
        let f = convert_from_json_field(&json_field("x", word)).unwrap();
        assert_eq!(f.field_type, *t);
        assert_eq!(f.name, "x");
        assert!(f.required);
        assert_eq!(t.word(), *word);
    }
    let e = convert_from_json_field(&json_field("x", "String")).unwrap_err();
    assert_eq!(e.kind(), ErrorKind::Config);
    assert_eq!(e.detail(), "Unknown field type: String");
    let mut with_default = json_field("x", "integer");
    with_default.default_value = number(7);
    with_default.description = Some("seven".to_string());
    let f = convert_from_json_field(&with_default).unwrap();
    match f.default_value {
        Some(FirestoreValue::IntegerValue(s)) => assert_eq!(s, "7"),
        _ => panic!("the default must be an integer value"),
    }
    assert_eq!(f.description.as_deref(), Some("seven"));
}

#[test]
fn index_orders_are_asc_or_desc() {
    let index = JsonIndex {
        fields: vec![
            JsonIndexField { field_path: "a".to_string(), order: "asc".to_string() },
            JsonIndexField { field_path: "b".to_string(), order: "desc".to_string() },
        ],
        unique: true,
        description: None,
    };
    let x = convert_from_json_index(&index).unwrap();
    assert!(x.unique);
    assert_eq!(x.fields[0].order, IndexOrder::Ascending);
    assert_eq!(x.fields[1].order, IndexOrder::Descending);
    assert_eq!(x.fields[1].field_path, "b");
    let bad = JsonIndex {
        fields: vec![
            JsonIndexField { field_path: "a".to_string(), order: "up".to_string() },
            JsonIndexField { field_path: "b".to_string(), order: "down".to_string() },
        ],
        unique: false,
        description: None,
    };
    let e = convert_from_json_index(&bad).unwrap_err();
    assert_eq!(e.kind(), ErrorKind::Config);
    assert_eq!(e.detail(), "Unknown index order: up");
}

#[test]
fn rules_take_their_bounds_from_the_value() {
    let text = |s: &str| Some(JsonValue::String(s.to_string()));
    match convert_from_json_validation_rule(&json_rule("min_length", number(5))).unwrap().rule {
        ValidationRuleType::MinLength(n) => assert_eq!(n, 5),
        _ => panic!(),
    }
    match convert_from_json_validation_rule(&json_rule("max_length", number(-5))).unwrap().rule {
        ValidationRuleType::MaxLength(n) => assert_eq!(n, 0),
        _ => panic!(),
    }
    match convert_from_json_validation_rule(&json_rule("min_length", None)).unwrap().rule {
        ValidationRuleType::MinLength(n) => assert_eq!(n, 0),
        _ => panic!(),
    }
    match convert_from_json_validation_rule(&json_rule("min", number(13))).unwrap().rule {
        ValidationRuleType::Min(t) => assert_eq!(t, "13"),
        _ => panic!(),
    }
    let half = Some(JsonValue::Number(JsonNumber::Double("0.5".to_string())));
    match convert_from_json_validation_rule(&json_rule("max", half)).unwrap().rule {
        ValidationRuleType::Max(t) => assert_eq!(t, "0.5"),
        _ => panic!(),
    }
    match convert_from_json_validation_rule(&json_rule("max", text("9"))).unwrap().rule {
        ValidationRuleType::Max(t) => assert_eq!(t, "0"),
        _ => panic!(),
    }
    match convert_from_json_validation_rule(&json_rule("regex", text("^a"))).unwrap().rule {
        ValidationRuleType::Regex(t) => assert_eq!(t, "^a"),
        _ => panic!(),
    }
    match convert_from_json_validation_rule(&json_rule("custom", number(1))).unwrap().rule {
        ValidationRuleType::Custom(t) => assert_eq!(t, ""),
        _ => panic!(),
    }
    assert!(matches!(
        convert_from_json_validation_rule(&json_rule("email", None)).unwrap().rule,
        ValidationRuleType::Email
    ));
    assert!(matches!(
        convert_from_json_validation_rule(&json_rule("url", None)).unwrap().rule,
        ValidationRuleType::Url
    ));
    let e = convert_from_json_validation_rule(&json_rule("unique", None)).unwrap_err();
    assert_eq!(e.kind(), ErrorKind::Config);
    assert_eq!(e.detail(), "Unknown validation rule type: unique");
}

#[test]
fn a_collection_is_converted_whole_or_not_at_all() {
    let c = JsonCollection {
        name: "c".to_string(),
        description: None,
        fields: vec![json_field("a", "string"), json_field("b", "integer")],
        indexes: Vec::new(),
        validation_rules: vec![json_rule("email", None)],
    };
    let declared: Collection = convert_from_json_collection(&c).unwrap();
    assert_eq!(declared.name, "c");
    assert_eq!(declared.fields.len(), 2);
    assert_eq!(declared.validation_rules.len(), 1);
    assert_eq!(declared.validation_rules[0].field, "f");
    let bad = JsonCollection {
        name: "c".to_string(),
        description: None,
        fields: vec![json_field("a", "string")],
        indexes: Vec::new(),
        validation_rules: vec![json_rule("nope", None)],
    };
    assert_eq!(convert_from_json_collection(&bad).unwrap_err().kind(), ErrorKind::Config);
}

#[test]
fn a_discovered_collection_becomes_a_schema_collection() {
    let docs: Vec<JsonValue> = [
        r#"{"fields":{"name":{"stringValue":"Ann"},"age":{"integerValue":"30"},"ok":{"booleanValue":true},"w":{"doubleValue":1.5},"t":{"timestampValue":"x"},"m":{"stringValue":"a"}}}"#,
        r#"{"fields":{"name":{"stringValue":"Bob"},"age":{"integerValue":"40"},"ok":{"booleanValue":false},"w":{"doubleValue":2.5},"t":{"timestampValue":"y"},"m":{"integerValue":"1"},"rare":{"stringValue":"r"}}}"#,
    ]
    .iter()
    .map(|t| parse_json(t).unwrap())
    .collect();
    let schema = describe_documents("people", &docs);
    let c = convert_collection_schema_to_json(&schema);
    assert_eq!(c.name, "people");
    assert_eq!(c.description.as_deref(), Some("Discovered collection with 2 documents"));
    assert!(c.indexes.is_empty());
    assert!(c.validation_rules.is_empty());
    let find = |name: &str| c.fields.iter().find(|f| f.name == name).unwrap();
    let name = find("name");
    assert_eq!(name.field_type, "string");
    assert!(name.required);
    assert_eq!(name.default_value.as_ref().unwrap().as_str(), Some("Ann"));
    assert_eq!(
        name.description.as_deref(),
        Some("Found in 2/2 documents. Samples: \"Ann\", \"Bob\"")
    );
    assert!(matches!(find("age").default_value, Some(JsonValue::Number(JsonNumber::Integer(30)))));
    assert!(matches!(find("ok").default_value, Some(JsonValue::Bool(true))));
    match &find("w").default_value {
        Some(JsonValue::Number(JsonNumber::Double(t))) => assert_eq!(t, "1.5"),
        other => panic!("unexpected default {:?}", other),
    }
    assert_eq!(find("t").field_type, "timestamp");
    assert!(find("t").default_value.is_none());
    assert_eq!(find("m").field_type, "mixed");
    assert!(find("m").default_value.is_none());
    let rare = find("rare");
    assert!(!rare.required);
    assert!(rare.default_value.is_none());
    assert_eq!(rare.description.as_deref(), Some("Found in 1/2 documents. Samples: \"r\""));
}

#[test]
fn an_export_holds_the_raw_fields_of_each_document() {
    let body = r#"{"documents":[{"name":"a","fields":{"x":{"integerValue":"1"}}},{"name":"b"},{"name":"c","fields":{}}]}"#;
    let response = HttpResponse { status: 200, body: body.to_string() };
    let export = export_collection_raw("users", &response, "2024-01-01T00:00:00+00:00").unwrap();
    assert_eq!(export.collection, "users");
    assert_eq!(export.exported_at, "2024-01-01T00:00:00+00:00");
    assert_eq!(export.count, 2);
    assert_eq!(export.data.len(), 2);
    assert_eq!(to_json_text(&export.data[0]).unwrap(), r#"{"x":{"integerValue":"1"}}"#);
    assert_eq!(
        to_json_text(&export.to_json()).unwrap(),
        r#"{"collection":"users","count":2,"data":[{"x":{"integerValue":"1"}},{}],"exported_at":"2024-01-01T00:00:00+00:00"}"#
    );
    let back = DataExport::from_json(&export.to_json()).unwrap();
    assert_eq!(back.collection, "users");
    assert_eq!(back.count, 2);
    assert_eq!(back.data.len(), 2);
    let failed = HttpResponse { status: 500, body: "down".to_string() };
    let e = export_collection_raw("users", &failed, "t").unwrap_err();
    assert_eq!(e.kind(), ErrorKind::Database);
    assert_eq!(e.detail(), "Failed to list documents: down");
    let empty = HttpResponse { status: 200, body: "{}".to_string() };
    assert_eq!(export_collection_raw("users", &empty, "t").unwrap().count, 0);
    let junk = HttpResponse { status: 200, body: "junk".to_string() };
    assert_eq!(export_collection_raw("users", &junk, "t").unwrap_err().kind(), ErrorKind::Serde);
}

#[test]
fn an_export_file_must_hold_all_its_members() {
    for text in [
        r#"{"exported_at":"t","count":0,"data":[]}"#,
        r#"{"collection":"c","count":0,"data":[]}"#,
        r#"{"collection":"c","exported_at":"t","data":[]}"#,
        r#"{"collection":"c","exported_at":"t","count":-1,"data":[]}"#,
        r#"{"collection":"c","exported_at":"t","count":0}"#,
        r#"[]"#,
    ] {
        let e = DataExport::from_json(&parse_json(text).unwrap()).unwrap_err();
        assert_eq!(e.kind(), ErrorKind::Serde, "on {}", text);
    }
    let ok = r#"{"collection":"c","exported_at":"t","count":1,"data":[{"a":1}]}"#;
    let export = DataExport::from_json(&parse_json(ok).unwrap()).unwrap();
    assert_eq!(export.count, 1);
    assert_eq!(to_json_text(&export.data[0]).unwrap(), r#"{"a":1}"#);
}

#[test]
fn backups_are_named_after_their_collection() {
    assert_eq!(backup_file_name("backup", "users"), "backup/users_backup.json");
}

#[test]
fn nothing_defined_in_code_goes_out_to_a_schema_file() {
    let mut manager = JsonSchemaManager::new(client());
    manager.define_collection(Collection {
        name: "c".to_string(),
        fields: Vec::new(),
        indexes: Vec::new(),
        validation_rules: Vec::new(),
    });
    assert_eq!(manager.get_schema_manager().defined_collections().len(), 1);
    let schema = manager.convert_to_json_schema();
    assert_eq!(schema.version, "1.0.0");
    assert!(schema.collections.is_empty());
    assert_eq!(to_json_text(&schema.to_json()).unwrap(), r#"{"collections":{},"version":"1.0.0"}"#);
}

#[test]
fn the_schema_manager_can_be_changed_in_place() {
    let mut manager = JsonSchemaManager::new(client());
    manager.get_schema_manager_mut().define_collection(Collection {
        name: "posts".to_string(),
        fields: Vec::new(),
        indexes: Vec::new(),
        validation_rules: Vec::new(),
    });
    let defined = manager.get_schema_manager().defined_collections();
    assert_eq!(defined.len(), 1);
    assert_eq!(defined[0].name, "posts");
    manager.get_schema_manager_mut().clear();
    assert!(manager.get_schema_manager().defined_collections().is_empty());
}

#[test]
fn a_reader_names_the_member_that_it_misses() {
    let e = JsonField::from_json(&parse_json(r#"{"name":"x","required":true}"#).unwrap())
        .unwrap_err();
    assert_eq!(e.kind(), ErrorKind::Serde);
    assert_eq!(e.detail(), "missing field `field_type`");
    let e = JsonIndexField::from_json(&parse_json(r#"{"field_path":"x"}"#).unwrap()).unwrap_err();
    assert_eq!(e.detail(), "missing field `order`");
    let e = DataExport::from_json(&parse_json(r#"{"collection":"users"}"#).unwrap()).unwrap_err();
    assert_eq!(e.message(), "JSON serialization/deserialization failed: missing field `exported_at`");
}
