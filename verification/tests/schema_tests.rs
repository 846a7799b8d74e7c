use firebase_db::error::ErrorKind;
use firebase_db::models::{FirestoreFields, FirestoreValue, User};
use firebase_db::schema::{
    validate_field_type, validate_fields, validate_rule, Collection, Field, FieldType, Index,
    IndexField, IndexOrder, SchemaManager, ValidationRule, ValidationRuleType,
};
use firebase_db::time::Timestamp;
use firebase_db::FirebaseClient;

fn client() -> FirebaseClient {
    FirebaseClient::new("demo".to_string(), "KEY".to_string())
}

fn field(name: &str, field_type: FieldType, required: bool) -> Field {
    Field { name: name.to_string(), field_type, required, default_value: None, description: None }
}

fn rule(field: &str, rule: ValidationRuleType) -> ValidationRule {
    ValidationRule { field: field.to_string(), rule }
}

fn users(rules: Vec<ValidationRule>) -> Collection {
    Collection {
        name: "users".to_string(),
        fields: vec![
            field("name", FieldType::String, true),
            field("email", FieldType::String, true),
            field("age", FieldType::Integer, true),
            field("nick", FieldType::String, false),
        ],
        indexes: vec![
            Index {
                fields: vec![IndexField {
                    field_path: "email".to_string(),
                    order: IndexOrder::Ascending,
                }],
                unique: true,
            },
            Index {
                fields: vec![
                    IndexField { field_path: "age".to_string(), order: IndexOrder::Descending },
                    IndexField { field_path: "name".to_string(), order: IndexOrder::Ascending },
                ],
                unique: false,
            },
        ],
        validation_rules: rules,
    }
}

fn user(name: &str, email: &str, age: u32) -> User {
    User {
        id: None,
        name: name.to_string(),
        email: email.to_string(),
        age,
        created_at: Timestamp::from_parts(0, 0).unwrap(),
        updated_at: Timestamp::from_parts(0, 0).unwrap(),
    }
}

fn manager(rules: Vec<ValidationRule>) -> SchemaManager {
    let mut m = SchemaManager::new(client());
    m.define_collection(users(rules));
    m
}

fn string(s: &str) -> FirestoreValue {
    FirestoreValue::StringValue(s.to_string())
}

#[test]
fn an_age_below_the_minimum_fails_validation() {
    let m = manager(vec![rule("age", ValidationRuleType::Min(format!("{:?}", 18.0f64)))]);
    let e = m.validate("users", &user("Ann", "a@b.c", 12)).unwrap_err();
    assert_eq!(e.kind(), ErrorKind::Validation);
    assert!(e.detail().contains("age"));
    assert_eq!(e.detail(), "Field 'age' must be at least 18.0");
    assert!(m.validate("users", &user("Ann", "a@b.c", 18)).is_ok());
    assert!(m.validate("users", &user("Ann", "a@b.c", 19)).is_ok());
}

#[test]
fn a_text_that_is_no_email_fails_validation() {
    let m = manager(vec![rule("email", ValidationRuleType::Email)]);
    let e = m.validate("users", &user("Ann", "not-an-email", 30)).unwrap_err();
    assert_eq!(e.kind(), ErrorKind::Validation);
    assert!(e.detail().contains("email"));
    assert_eq!(e.detail(), "Field 'email' must be a valid email");
    assert!(m.validate("users", &user("Ann", "a@b", 30)).is_err());
    assert!(m.validate("users", &user("Ann", "a.b", 30)).is_err());
    assert!(m.validate("users", &user("Ann", "ann@example.com", 30)).is_ok());
}

#[test]
fn validation_needs_a_defined_collection() {
    let m = manager(Vec::new());
    let e = m.validate("posts", &user("Ann", "a@b.c", 30)).unwrap_err();
    assert_eq!(e.kind(), ErrorKind::Config);
    assert_eq!(e.detail(), "Collection posts not defined");
    assert_eq!(e.message(), "Invalid configuration: Collection posts not defined");
}

#[test]
fn the_first_failure_is_the_one_reported() {
    let c = users(vec![
        rule("name", ValidationRuleType::MinLength(5)),
        rule("email", ValidationRuleType::Email),
    ]);
    let fields: FirestoreFields = vec![
        ("name".to_string(), string("Al")),
        ("email".to_string(), string("nope")),
        ("age".to_string(), string("old")),
    ];
    let e = validate_fields(&c, &fields).unwrap_err();
    assert_eq!(e.detail(), "Field 'age' has incorrect type. Expected Integer");
    let fields: FirestoreFields = vec![
        ("name".to_string(), string("Al")),
        ("email".to_string(), string("nope")),
        ("age".to_string(), FirestoreValue::IntegerValue("3".to_string())),
    ];
    let e = validate_fields(&c, &fields).unwrap_err();
    assert_eq!(e.detail(), "Field 'name' must be at least 5 characters");
    let fields: FirestoreFields = vec![("email".to_string(), string("nope"))];
    let e = validate_fields(&c, &fields).unwrap_err();
    assert_eq!(e.kind(), ErrorKind::Validation);
    assert_eq!(e.detail(), "Required field 'name' is missing");
}

#[test]
fn a_field_that_is_not_required_may_be_missing_but_not_of_the_wrong_kind() {
    let c = users(vec![rule("nick", ValidationRuleType::MinLength(2))]);
    let mut fields: FirestoreFields = vec![
        ("name".to_string(), string("Ann")),
        ("email".to_string(), string("a@b.c")),
        ("age".to_string(), FirestoreValue::IntegerValue("3".to_string())),
    ];
    assert!(validate_fields(&c, &fields).is_ok());
    fields.push(("nick".to_string(), FirestoreValue::BooleanValue(true)));
    let e = validate_fields(&c, &fields).unwrap_err();
    assert_eq!(e.detail(), "Field 'nick' has incorrect type. Expected String");
}

#[test]
fn every_declared_type_admits_its_own_kind_of_value() {
    let values = vec![
        (FieldType::String, string("x")),
        (FieldType::Integer, FirestoreValue::IntegerValue("1".to_string())),
        (FieldType::Double, FirestoreValue::DoubleValue("1.5".to_string())),
        (FieldType::Boolean, FirestoreValue::BooleanValue(true)),
        (FieldType::Timestamp, FirestoreValue::TimestampValue("t".to_string())),
        (FieldType::Mapping, FirestoreValue::MapValue { fields: Vec::new() }),
        (FieldType::Array, FirestoreValue::ArrayValue { values: Vec::new() }),
    ];
    for (i, (t, _)) in values.iter().enumerate() {
        for (k, (_, v)) in values.iter().enumerate() {
            assert_eq!(validate_field_type("f", t, v).is_ok(), i == k);
        }
        assert!(validate_field_type("f", t, &FirestoreValue::NullValue).is_err());
        assert!(validate_field_type("f", &FieldType::Reference, &values[i].1).is_err());
    }
    let e = validate_field_type("f", &FieldType::Mapping, &string("x")).unwrap_err();
    assert_eq!(e.detail(), "Field 'f' has incorrect type. Expected Map");
}

#[test]
fn lengths_are_counted_in_bytes() {
    let min = ValidationRuleType::MinLength(3);
    assert!(validate_rule("f", &min, &string("abc")).is_ok());
    assert!(validate_rule("f", &min, &string("ab")).is_err());
    assert!(validate_rule("f", &min, &string("é")).is_err());
    assert!(validate_rule("f", &min, &string("éé")).is_ok());
    let max = ValidationRuleType::MaxLength(3);
    assert!(validate_rule("f", &max, &string("abc")).is_ok());
    let e = validate_rule("f", &max, &string("abcd")).unwrap_err();
    assert_eq!(e.detail(), "Field 'f' must be at most 3 characters");
    assert!(validate_rule("f", &max, &string("éé")).is_err());
    assert!(validate_rule("f", &max, &FirestoreValue::IntegerValue("12345".to_string())).is_ok());
}

#[test]
fn bounds_hold_for_integers_and_doubles() {
    let min = ValidationRuleType::Min("0.5".to_string());
    let max = ValidationRuleType::Max("10".to_string());
    let int = |s: &str| FirestoreValue::IntegerValue(s.to_string());
    let dbl = |s: &str| FirestoreValue::DoubleValue(s.to_string());
    assert!(validate_rule("n", &min, &int("1")).is_ok());
    assert!(validate_rule("n", &min, &int("0")).is_err());
    assert!(validate_rule("n", &min, &dbl("0.5")).is_ok());
    assert!(validate_rule("n", &min, &dbl("0.49")).is_err());
    assert!(validate_rule("n", &min, &int("junk")).is_err());
    assert!(validate_rule("n", &min, &string("0")).is_ok());
    assert!(validate_rule("n", &max, &int("10")).is_ok());
    assert!(validate_rule("n", &max, &dbl("10.0")).is_ok());
    let e = validate_rule("n", &max, &int("11")).unwrap_err();
    assert_eq!(e.kind(), ErrorKind::Validation);
    assert_eq!(e.detail(), "Field 'n' must be at most 10");
    assert!(validate_rule("n", &max, &dbl("1e2")).is_err());
}

#[test]
fn a_pattern_must_match_somewhere() {
    let r = ValidationRuleType::Regex("^[a-z]+[0-9]$".to_string());
    assert!(validate_rule("f", &r, &string("abc1")).is_ok());
    let e = validate_rule("f", &r, &string("abc")).unwrap_err();
    assert_eq!(e.kind(), ErrorKind::Validation);
    assert_eq!(e.detail(), "Field 'f' does not match pattern ^[a-z]+[0-9]$");
    let anywhere = ValidationRuleType::Regex("b+".to_string());
    assert!(validate_rule("f", &anywhere, &string("aabba")).is_ok());
    assert!(validate_rule("f", &anywhere, &FirestoreValue::NullValue).is_ok());
}

#[test]
fn a_pattern_that_is_none_is_a_configuration_error() {
    let r = ValidationRuleType::Regex("foo(bar".to_string());
    let e = validate_rule("f", &r, &string("foobar")).unwrap_err();
    assert_eq!(e.kind(), ErrorKind::Config);
    assert!(e.detail().starts_with("Invalid regex: "));
    assert!(e.detail().len() > "Invalid regex: ".len());
}

#[test]
fn url_and_custom_rules_check_nothing() {
    assert!(validate_rule("f", &ValidationRuleType::Url, &string("not a url")).is_ok());
    assert!(validate_rule("f", &ValidationRuleType::Custom("x > 1".to_string()), &string("")).is_ok());
}

#[test]
fn defining_a_collection_again_replaces_it() {
    let mut m = manager(Vec::new());
    assert_eq!(m.defined_collections().len(), 1);
    m.define_collection(Collection {
        name: "posts".to_string(),
        fields: Vec::new(),
        indexes: Vec::new(),
        validation_rules: Vec::new(),
    });
    m.define_collection(Collection {
        name: "users".to_string(),
        fields: Vec::new(),
        indexes: Vec::new(),
        validation_rules: Vec::new(),
    });
    let names: Vec<&str> = m.defined_collections().iter().map(|c| c.name.as_str()).collect();
    assert_eq!(names, vec!["users", "posts"]);
    assert!(m.get_collection("users").unwrap().fields.is_empty());
    assert!(m.get_collection("none").is_none());
    assert!(m.validate("users", &user("", "", 0)).is_ok());
    m.clear();
    assert!(m.defined_collections().is_empty());
    assert_eq!(m.client().api_key, "KEY");
}

#[test]
fn the_indexes_of_a_collection_are_reported() {
    let m = manager(Vec::new());
    let expected = [
        "Note: Firestore indexes must be created in the Firebase Console or via Firebase CLI\n",
        "Required indexes for collection 'users':\n",
        "\nIndex 1:\n",
        "  - Field: email, Order: Ascending\n",
        "  - Unique: true\n",
        "\nIndex 2:\n",
        "  - Field: age, Order: Descending\n",
        "  - Field: name, Order: Ascending\n",
    ]
    .concat();
    assert_eq!(m.create_indexes("users").unwrap(), expected);
    let e = m.create_indexes("posts").unwrap_err();
    assert_eq!(e.kind(), ErrorKind::Config);
    assert_eq!(e.detail(), "Collection posts not defined");
}
