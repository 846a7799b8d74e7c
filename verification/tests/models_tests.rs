use firebase_db::double::{double_bits, double_less, number_text_less};
use firebase_db::models::{
    clone_fields, field_names, get_field, has_field, set_field, DecodeError, FirestoreValue,
    FromFirestore, ToFirestore, User,
};
use firebase_db::time::Timestamp;

fn text_value(v: Option<&FirestoreValue>) -> String {
    match v {
        Some(FirestoreValue::StringValue(s)) => s.clone(),
        Some(FirestoreValue::IntegerValue(s)) => s.clone(),
        Some(FirestoreValue::TimestampValue(s)) => s.clone(),
        other => panic!("unexpected value {:?}", other),
    }
}

fn user() -> User {
    User {
        id: Some("u1".to_string()),
        name: "Ann".to_string(),
        email: "ann@example.com".to_string(),
        age: 30,
        created_at: Timestamp::from_parts(1_700_000_000, 0).unwrap(),
        updated_at: Timestamp::from_parts(1_700_000_100, 250_000_000).unwrap(),
    }
}

#[test]
fn a_user_is_written_as_its_fields() {
    let fields = user().to_firestore();
    let names: Vec<String> = field_names(&fields);
    assert_eq!(names, vec!["id", "name", "email", "age", "created_at", "updated_at"]);
    assert_eq!(text_value(get_field(&fields, "id")), "u1");
    assert_eq!(text_value(get_field(&fields, "name")), "Ann");
    assert_eq!(text_value(get_field(&fields, "email")), "ann@example.com");
    assert_eq!(text_value(get_field(&fields, "age")), "30");
    assert!(matches!(get_field(&fields, "age"), Some(FirestoreValue::IntegerValue(_))));
    assert_eq!(text_value(get_field(&fields, "created_at")), "2023-11-14T22:13:20+00:00");
    assert_eq!(text_value(get_field(&fields, "updated_at")), "2023-11-14T22:15:00.250+00:00");
}

#[test]
fn a_user_without_an_id_writes_no_id() {
    let mut u = user();
    u.id = None;
    let fields = u.to_firestore();
    assert_eq!(fields.len(), 5);
    assert!(!has_field(&fields, "id"));
}

#[test]
fn a_user_reads_back_as_it_was_written() {
    let u = user();
    let back = User::from_firestore(&u.to_firestore()).unwrap();
    assert_eq!(back.id, u.id);
    assert_eq!(back.name, u.name);
    assert_eq!(back.email, u.email);
    assert_eq!(back.age, u.age);
    assert_eq!(back.created_at.unix_seconds(), 1_700_000_000);
    assert_eq!(back.created_at.subsec_nanos(), 0);
    assert_eq!(back.updated_at.unix_seconds(), 1_700_000_100);
    assert_eq!(back.updated_at.subsec_nanos(), 250_000_000);
    let mut v = user();
    v.id = None;
    v.age = u32::MAX;
    let back = User::from_firestore(&v.to_firestore()).unwrap();
    assert!(back.id.is_none());
    assert_eq!(back.age, u32::MAX);
}

#[test]
fn a_user_cannot_do_without_name_and_email() {
    let mut fields = user().to_firestore();
    fields.retain(|(k, _)| k != "name");
    match User::from_firestore(&fields) {
        Err(DecodeError::MissingField(f)) => assert_eq!(f, "name"),
        _ => panic!("the missing field must be reported"),
    }
    let mut fields = user().to_firestore();
    set_field(&mut fields, "email".to_string(), FirestoreValue::IntegerValue("5".to_string()));
    match User::from_firestore(&fields) {
        Err(e) => {
            assert_eq!(e.field_name(), "email");
            assert_eq!(e.into_error().detail(), "Missing email field");
        }
        _ => panic!("a field of the wrong kind counts as missing"),
    }
    let fields = Vec::new();
    match User::from_firestore(&fields) {
        Err(DecodeError::MissingField(f)) => assert_eq!(f, "name"),
        _ => panic!("the first missing field must be reported"),
    }
}

#[test]
fn a_user_falls_back_to_defaults_for_the_rest() {
    let now = Timestamp::from_parts(42, 7).unwrap();
    let fields = vec![
        ("name".to_string(), FirestoreValue::StringValue("Ann".to_string())),
        ("email".to_string(), FirestoreValue::StringValue("a@b.c".to_string())),
        ("age".to_string(), FirestoreValue::StringValue("thirty".to_string())),
        ("created_at".to_string(), FirestoreValue::TimestampValue("yesterday".to_string())),
    ];
    let u = User::from_firestore_at(&fields, now).unwrap();
    assert!(u.id.is_none());
    assert_eq!(u.age, 0);
    assert_eq!(u.created_at.unix_seconds(), 42);
    assert_eq!(u.created_at.subsec_nanos(), 7);
    assert_eq!(u.updated_at.unix_seconds(), 42);
    let fields = vec![
        ("name".to_string(), FirestoreValue::StringValue("Ann".to_string())),
        ("email".to_string(), FirestoreValue::StringValue("a@b.c".to_string())),
        ("age".to_string(), FirestoreValue::IntegerValue("-3".to_string())),
        (
            "updated_at".to_string(),
            FirestoreValue::TimestampValue("2024-01-01T01:00:00+01:00".to_string()),
        ),
    ];
    let u = User::from_firestore_at(&fields, now).unwrap();
    assert_eq!(u.age, 0);
    assert_eq!(u.updated_at.unix_seconds(), 1_704_067_200);
    assert_eq!(u.updated_at.to_rfc3339(), "2024-01-01T00:00:00+00:00");
}

#[test]
fn a_new_user_is_created_and_updated_at_once() {
    let u = User::new("Ann".to_string(), "a@b.c".to_string(), 30);
    assert!(u.id.is_none());
    assert_eq!(u.name, "Ann");
    assert_eq!(u.email, "a@b.c");
    assert_eq!(u.age, 30);
    assert_eq!(u.created_at.unix_seconds(), u.updated_at.unix_seconds());
    assert_eq!(u.created_at.subsec_nanos(), u.updated_at.subsec_nanos());
    assert!(u.created_at.unix_seconds() > 1_600_000_000);
}

#[test]
fn fields_are_set_in_place_or_at_the_end() {
    let mut fields = vec![
        ("a".to_string(), FirestoreValue::BooleanValue(true)),
        ("b".to_string(), FirestoreValue::NullValue),
    ];
    set_field(&mut fields, "a".to_string(), FirestoreValue::BooleanValue(false));
    set_field(&mut fields, "c".to_string(), FirestoreValue::Unknown);
    assert_eq!(field_names(&fields), vec!["a", "b", "c"]);
    assert!(matches!(get_field(&fields, "a"), Some(FirestoreValue::BooleanValue(false))));
    assert!(matches!(get_field(&fields, "c"), Some(FirestoreValue::Unknown)));
    assert!(get_field(&fields, "d").is_none());
    let copy = clone_fields(&fields);
    assert_eq!(field_names(&copy), vec!["a", "b", "c"]);
}

#[test]
fn timestamps_are_read_and_written_as_rfc_3339() {
    let t = Timestamp::parse("1996-12-19T16:39:57-08:00").unwrap();
    assert_eq!(t.unix_seconds(), 851_042_397);
    assert_eq!(t.subsec_nanos(), 0);
    assert_eq!(t.to_rfc3339(), "1996-12-20T00:39:57+00:00");
    let t = Timestamp::parse("2024-02-29T12:00:00.123456789Z").unwrap();
    assert_eq!(t.subsec_nanos(), 123_456_789);
    assert_eq!(t.to_rfc3339(), "2024-02-29T12:00:00.123456789+00:00");
    assert!(Timestamp::parse("2024-02-30T12:00:00Z").is_none());
    assert!(Timestamp::parse("2024-01-01 12:00:00").is_none());
    assert!(Timestamp::parse("now").is_none());
    assert!(Timestamp::parse("").is_none());
}

#[test]
fn a_timestamp_holds_only_what_the_calendar_can_show() {
    assert!(Timestamp::from_parts(0, 0).is_some());
    assert_eq!(Timestamp::from_parts(0, 0).unwrap().to_rfc3339(), "1970-01-01T00:00:00+00:00");
    assert!(Timestamp::from_parts(-1, 999_999_999).is_some());
    assert!(Timestamp::from_parts(0, 2_000_000_000).is_none());
    assert!(Timestamp::from_parts(i64::MAX, 0).is_none());
    assert!(Timestamp::from_parts(i64::MIN, 0).is_none());
}

#[test]
fn now_is_not_in_the_past() {
    let a = Timestamp::now();
    let b = Timestamp::now();
    assert!(a.unix_seconds() <= b.unix_seconds());
    assert!(Timestamp::parse(&a.to_rfc3339()).is_some());
}

#[test]
fn doubles_are_ordered_by_their_bits() {
    let bits = |x: f64| x.to_bits();
    let samples = [
        0.0,
        -0.0,
        1.0,
        -1.0,
        0.5,
        18.0,
        12.0,
        1e300,
        -1e300,
        f64::MIN_POSITIVE,
        f64::MAX,
        f64::MIN,
        f64::INFINITY,
        f64::NEG_INFINITY,
        f64::NAN,
        5e-324,
    ];
    for a in samples {
        for b in samples {
            assert_eq!(double_less(bits(a), bits(b)), a < b, "{} < {}", a, b);
        }
    }
}

#[test]
fn number_texts_are_read_into_bits() {
    assert_eq!(double_bits("18.0"), Some(18.0f64.to_bits()));
    assert_eq!(double_bits("12"), Some(12.0f64.to_bits()));
    assert_eq!(double_bits("-2.5e3"), Some((-2500.0f64).to_bits()));
    assert_eq!(double_bits("9007199254740993"), Some(9007199254740992.0f64.to_bits()));
    assert_eq!(double_bits("abc"), None);
    assert_eq!(double_bits(""), None);
    assert_eq!(double_bits("1 "), None);
    assert_eq!(double_bits("inf"), None);
}

#[test]
fn number_texts_are_ordered_as_numbers() {
    assert!(number_text_less("12", "18.0"));
    assert!(!number_text_less("18", "18.0"));
    assert!(!number_text_less("19", "18.0"));
    assert!(number_text_less("-5", "0"));
    assert!(number_text_less("9", "10"));
    assert!(number_text_less("abc", "1"));
    assert!(!number_text_less("abc", "0"));
    assert!(number_text_less("-1", "abc"));
}

#[test]
fn the_present_instant_has_a_text_that_reads_back() {
    let now = Timestamp::now();
    assert!(now.unix_seconds() > 1_600_000_000);
    assert!(now.subsec_nanos() < 2_000_000_000);
    let text = now.to_rfc3339();
    assert!(!text.is_empty());
    let back = Timestamp::parse(&text).unwrap();
    assert_eq!(back.unix_seconds(), now.unix_seconds());
    assert_eq!(back.subsec_nanos(), now.subsec_nanos());
}

#[test]
fn the_text_of_a_time_reads_back_within_the_four_digit_years() {
    let cases: Vec<(i64, u32)> = vec![
        (0, 0),
        (1_700_000_000, 500_000_000),
        (1_700_000_000, 123_456_000),
        (1_700_000_000, 123_456_789),
        (-1, 999_999_999),
        (-62_167_219_200, 0),
        (253_402_300_799, 999_999_999),
        (1_483_228_799, 1_500_000_000),
    ];
    for (seconds, nanos) in cases {
        let t = Timestamp::from_parts(seconds, nanos).unwrap();
        let back = Timestamp::parse(&t.to_rfc3339()).unwrap();
        assert_eq!(back.unix_seconds(), seconds, "seconds of {}", t.to_rfc3339());
        assert_eq!(back.subsec_nanos(), nanos, "nanoseconds of {}", t.to_rfc3339());
    }
    assert_eq!(
        Timestamp::from_parts(-62_167_219_200, 0).unwrap().to_rfc3339(),
        "0000-01-01T00:00:00+00:00"
    );
    assert_eq!(
        Timestamp::from_parts(253_402_300_799, 0).unwrap().to_rfc3339(),
        "9999-12-31T23:59:59+00:00"
    );
    assert_eq!(
        Timestamp::from_parts(1_483_228_799, 1_500_000_000).unwrap().to_rfc3339(),
        "2016-12-31T23:59:60.500+00:00"
    );
}

#[test]
fn beyond_the_four_digit_years_the_text_of_a_time_is_not_read_back() {
    let late = Timestamp::from_parts(253_402_300_800, 0).unwrap();
    assert_eq!(late.to_rfc3339(), "+10000-01-01T00:00:00+00:00");
    assert!(Timestamp::parse(&late.to_rfc3339()).is_none());
    let early = Timestamp::from_parts(-62_167_219_201, 0).unwrap();
    assert_eq!(early.to_rfc3339(), "-0001-12-31T23:59:59+00:00");
    assert!(Timestamp::parse(&early.to_rfc3339()).is_none());
    assert!(Timestamp::from_parts(0, 1_500_000_000).is_none());
}

#[test]
fn a_user_comes_back_with_the_times_that_were_written() {
    let written = User {
        id: Some("u7".to_string()),
        name: "Ann".to_string(),
        email: "ann@example.com".to_string(),
        age: 41,
        created_at: Timestamp::from_parts(1_700_000_000, 0).unwrap(),
        updated_at: Timestamp::from_parts(1_700_000_100, 250_000_000).unwrap(),
    };
    let read = User::from_firestore(&written.to_firestore()).unwrap();
    assert_eq!(read.id.as_deref(), Some("u7"));
    assert_eq!(read.name, "Ann");
    assert_eq!(read.email, "ann@example.com");
    assert_eq!(read.age, 41);
    assert_eq!(read.created_at.unix_seconds(), 1_700_000_000);
    assert_eq!(read.created_at.subsec_nanos(), 0);
    assert_eq!(read.updated_at.unix_seconds(), 1_700_000_100);
    assert_eq!(read.updated_at.subsec_nanos(), 250_000_000);
}
