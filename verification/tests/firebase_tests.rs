use firebase_db::error::ErrorKind;
use firebase_db::firebase::{document_on_line, envelope_document};
use firebase_db::json::{parse_json, to_json_text, JsonNumber, JsonValue};
use firebase_db::models::{FirestoreValue, User};
use firebase_db::query::QueryBuilder;
use firebase_db::time::Timestamp;
use firebase_db::{FirebaseClient, HttpMethod, HttpResponse, Reading};

const BASE: &str = "https://firestore.googleapis.com/v1/projects/demo/databases/(default)/documents";

fn client() -> FirebaseClient {
    FirebaseClient::new("demo".to_string(), "KEY".to_string())
}

fn response(status: u16, body: &str) -> HttpResponse {
    HttpResponse { status, body: body.to_string() }
}

fn body_text(body: &Option<JsonValue>) -> String {
    to_json_text(body.as_ref().unwrap()).unwrap()
}

fn user() -> User {
    User {
        id: Some("u1".to_string()),
        name: "Ann".to_string(),
        email: "ann@example.com".to_string(),
        age: 30,
        created_at: Timestamp::from_parts(1_700_000_000, 0).unwrap(),
        updated_at: Timestamp::from_parts(1_700_000_100, 500_000_000).unwrap(),
    }
}

fn user_document(name: &str, age: &str) -> String {
    [
        r#"{"name":"projects/demo/databases/(default)/documents/users/"#,
        name,
        r#"","fields":{"name":{"stringValue":""#,
        name,
        r#""},"email":{"stringValue":"a@b.c"},"age":{"integerValue":""#,
        age,
        r#""}},"createTime":"2024-01-01T00:00:00Z","updateTime":"2024-01-02T00:00:00Z"}"#,
    ]
    .concat()
}

#[test]
fn the_client_knows_the_root_of_its_project() {
    let c = client();
    assert_eq!(c.base_url, BASE);
    assert_eq!(c.api_key, "KEY");
    assert_eq!(c.project_id, "demo");
    let d = c.clone_client();
    assert_eq!(d.base_url, BASE);
}

#[test]
fn create_posts_the_fields_of_the_record() {
    let r = client().create_request("/users", &user());
    assert_eq!(r.method, HttpMethod::Post);
    assert_eq!(r.url, format!("{}/users?key=KEY", BASE));
    let expected = [
        r#"{"fields":{"#,
        r#""age":{"integerValue":"30"},"#,
        r#""created_at":{"timestampValue":"2023-11-14T22:13:20+00:00"},"#,
        r#""email":{"stringValue":"ann@example.com"},"#,
        r#""id":{"stringValue":"u1"},"#,
        r#""name":{"stringValue":"Ann"},"#,
        r#""updated_at":{"timestampValue":"2023-11-14T22:15:00.500+00:00"}"#,
        r#"}}"#,
    ]
    .concat();
    assert_eq!(body_text(&r.body), expected);
}

#[test]
fn create_gives_the_last_segment_of_the_name_as_the_id() {
    let ok = response(200, &user_document("abc123", "30"));
    assert_eq!(FirebaseClient::create_response(&ok).unwrap(), "abc123");
    assert_eq!(FirebaseClient::create_document_response(&ok).unwrap(), "abc123");
}

#[test]
fn a_failed_create_carries_the_body_of_the_response() {
    let e = FirebaseClient::create_response(&response(403, "denied")).unwrap_err();
    assert_eq!(e.kind(), ErrorKind::Database);
    assert_eq!(e.detail(), "Failed to create document: denied");
    let e = FirebaseClient::create_document_response(&response(500, "boom")).unwrap_err();
    assert_eq!(e.detail(), "Create failed: boom");
    let e = FirebaseClient::create_response(&response(200, "not json")).unwrap_err();
    assert_eq!(e.kind(), ErrorKind::Serde);
    let e = FirebaseClient::create_response(&response(200, r#"{"fields":{}}"#)).unwrap_err();
    assert_eq!(e.kind(), ErrorKind::Serde);
}

#[test]
fn only_the_2xx_class_is_success() {
    assert!(FirebaseClient::update_response(&response(200, "")).is_ok());
    assert!(FirebaseClient::update_response(&response(204, "")).is_ok());
    assert!(FirebaseClient::update_response(&response(299, "")).is_ok());
    assert!(FirebaseClient::update_response(&response(199, "")).is_err());
    assert!(FirebaseClient::update_response(&response(300, "")).is_err());
    let e = FirebaseClient::update_response(&response(400, "bad")).unwrap_err();
    assert_eq!(e.detail(), "Failed to update document: bad");
    let e = FirebaseClient::update_document_response(&response(400, "bad")).unwrap_err();
    assert_eq!(e.detail(), "Update failed: bad");
}

#[test]
fn get_asks_for_the_document_and_reads_the_record() {
    let r = client().get_request("users", "abc");
    assert_eq!(r.method, HttpMethod::Get);
    assert_eq!(r.url, format!("{}/users/abc?key=KEY", BASE));
    assert!(r.body.is_none());
    let u: User =
        FirebaseClient::get_response("abc", &response(200, &user_document("Ann", "41"))).unwrap();
    assert_eq!(u.name, "Ann");
    assert_eq!(u.email, "a@b.c");
    assert_eq!(u.age, 41);
    assert!(u.id.is_none());
}

#[test]
fn get_tells_not_found_from_other_failures() {
    let e = FirebaseClient::get_response::<User>("abc", &response(404, "{}")).unwrap_err();
    assert_eq!(e.kind(), ErrorKind::NotFound);
    assert_eq!(e.detail(), "abc");
    assert_eq!(e.message(), "Document not found: abc");
    let e = FirebaseClient::get_response::<User>("abc", &response(500, "x")).unwrap_err();
    assert_eq!(e.kind(), ErrorKind::Database);
    assert_eq!(e.detail(), "Failed to get document: x");
    let no_name = r#"{"name":"a/b","fields":{"email":{"stringValue":"a@b.c"}}}"#;
    let e = FirebaseClient::get_response::<User>("abc", &response(200, no_name)).unwrap_err();
    assert_eq!(e.kind(), ErrorKind::Database);
    assert_eq!(e.detail(), "Missing name field");
    let e = FirebaseClient::get_document_response("users", "abc", &response(404, "")).unwrap_err();
    assert_eq!(e.kind(), ErrorKind::NotFound);
    assert_eq!(e.detail(), "Document 'abc' not found in collection 'users'");
    let e = FirebaseClient::get_document_response("users", "abc", &response(401, "no")).unwrap_err();
    assert_eq!(e.detail(), "Get failed: no");
}

#[test]
fn get_document_gives_the_fields_as_a_dynamic_object() {
    let v = FirebaseClient::get_document_response(
        "users",
        "abc",
        &response(200, &user_document("Ann", "41")),
    )
    .unwrap();
    assert_eq!(to_json_text(&v).unwrap(), r#"{"age":41,"email":"a@b.c","name":"Ann"}"#);
}

#[test]
fn update_masks_the_fields_of_the_record_and_stamps_the_time() {
    let now = Timestamp::from_parts(1_700_000_200, 0).unwrap();
    let r = client().update_request_at("users", "abc", &user(), &now);
    assert_eq!(r.method, HttpMethod::Patch);
    assert_eq!(
        r.url,
        format!(
            "{}/users/abc?key=KEY&updateMask.fieldPaths=id&updateMask.fieldPaths=name\
&updateMask.fieldPaths=email&updateMask.fieldPaths=age&updateMask.fieldPaths=created_at\
&updateMask.fieldPaths=updated_at",
            BASE
        )
    );
    let body = body_text(&r.body);
    assert!(body.contains(r#""updated_at":{"timestampValue":"2023-11-14T22:16:40+00:00"}"#));
    assert!(body.contains(r#""name":{"stringValue":"Ann"}"#));
    let r = client().update_request("users", "abc", &user());
    assert_eq!(r.method, HttpMethod::Patch);
    assert!(body_text(&r.body).contains(r#""updated_at":{"timestampValue":""#));
}

#[test]
fn a_merging_update_names_the_fields_of_the_payload() {
    let data = parse_json(r#"{"age": 29}"#).unwrap();
    let r = client().update_document_request("users", "abc", &data, true).unwrap();
    assert_eq!(r.method, HttpMethod::Patch);
    assert_eq!(r.url, format!("{}/users/abc?key=KEY&updateMask.fieldPaths=age", BASE));
    assert_eq!(body_text(&r.body), r#"{"fields":{"age":{"integerValue":"29"}}}"#);
    let data = parse_json(r#"{"age": 29, "name": "Ann"}"#).unwrap();
    let r = client().update_document_request("users", "abc", &data, true).unwrap();
    assert_eq!(
        r.url,
        format!("{}/users/abc?key=KEY&updateMask.fieldPaths=age&updateMask.fieldPaths=name", BASE)
    );
}

#[test]
fn a_replacing_update_has_no_mask() {
    let data = parse_json(r#"{"age": 29}"#).unwrap();
    let r = client().update_document_request("users", "abc", &data, false).unwrap();
    assert_eq!(r.url, format!("{}/users/abc?key=KEY", BASE));
    assert_eq!(body_text(&r.body), r#"{"fields":{"age":{"integerValue":"29"}}}"#);
}

#[test]
fn a_payload_that_is_no_object_is_refused() {
    let data = JsonValue::Number(JsonNumber::Integer(3));
    let e = client().update_document_request("users", "abc", &data, true).unwrap_err();
    assert_eq!(e.kind(), ErrorKind::Validation);
    assert_eq!(e.detail(), "Root value must be an object");
    let e = client().create_document_request("users", None, &data).unwrap_err();
    assert_eq!(e.kind(), ErrorKind::Validation);
}

#[test]
fn create_document_may_name_the_id() {
    let data = parse_json(r#"{"n": 1}"#).unwrap();
    let r = client().create_document_request("/users", Some("me"), &data).unwrap();
    assert_eq!(r.method, HttpMethod::Post);
    assert_eq!(r.url, format!("{}/users?key=KEY&documentId=me", BASE));
    let r = client().create_document_request("users", None, &data).unwrap();
    assert_eq!(r.url, format!("{}/users?key=KEY", BASE));
    assert_eq!(body_text(&r.body), r#"{"fields":{"n":{"integerValue":"1"}}}"#);
}

#[test]
fn deleting_what_is_not_there_is_not_found() {
    let r = client().delete_document_request("users", "abc");
    assert_eq!(r.method, HttpMethod::Delete);
    assert_eq!(r.url, format!("{}/users/abc?key=KEY", BASE));
    let e = FirebaseClient::delete_document_response("users", "abc", &response(404, "gone"))
        .unwrap_err();
    assert_eq!(e.kind(), ErrorKind::NotFound);
    assert_eq!(e.detail(), "Document 'abc' not found in collection 'users'");
    let e = FirebaseClient::delete_response("abc", &response(404, "gone")).unwrap_err();
    assert_eq!(e.kind(), ErrorKind::NotFound);
    assert_eq!(e.detail(), "abc");
    let e = FirebaseClient::delete_document_response("users", "abc", &response(500, "x"))
        .unwrap_err();
    assert_eq!(e.kind(), ErrorKind::Database);
    assert_eq!(e.detail(), "Delete failed: x");
    let e = FirebaseClient::delete_response("abc", &response(500, "x")).unwrap_err();
    assert_eq!(e.detail(), "Failed to delete document: x");
    assert!(FirebaseClient::delete_document_response("users", "abc", &response(200, "{}")).is_ok());
    assert!(FirebaseClient::delete_response("abc", &response(200, "{}")).is_ok());
}

#[test]
fn list_asks_for_one_page() {
    let r = client().list_request("users", Some(10));
    assert_eq!(r.method, HttpMethod::Get);
    assert_eq!(r.url, format!("{}/users?key=KEY&pageSize=10", BASE));
    let r = client().list_request("users", None);
    assert_eq!(r.url, format!("{}/users?key=KEY", BASE));
}

#[test]
fn list_passes_over_what_it_cannot_read() {
    let body = format!(
        r#"{{"documents":[{},{{"name":"x","fields":{{"age":{{"integerValue":"1"}}}}}},17,{}]}}"#,
        user_document("Ann", "30"),
        user_document("Bob", "40")
    );
    let users: Vec<User> = FirebaseClient::list_response(&response(200, &body)).unwrap();
    assert_eq!(users.len(), 2);
    assert_eq!(users[0].name, "Ann");
    assert_eq!(users[1].name, "Bob");
    assert_eq!(users[1].age, 40);
}

#[test]
fn list_of_an_empty_collection_is_empty() {
    let users: Vec<User> = FirebaseClient::list_response(&response(200, "{}")).unwrap();
    assert!(users.is_empty());
    let e = FirebaseClient::list_response::<User>(&response(500, "x")).unwrap_err();
    assert_eq!(e.detail(), "Failed to list documents: x");
    let e = FirebaseClient::list_response::<User>(&response(200, "<html>")).unwrap_err();
    assert_eq!(e.kind(), ErrorKind::Serde);
}

#[test]
fn list_documents_gives_ids_and_objects_up_to_the_limit() {
    let body = format!(
        r#"{{"documents":[{},{},{}]}}"#,
        user_document("Ann", "30"),
        user_document("Bob", "40"),
        user_document("Cy", "50")
    );
    let all = FirebaseClient::list_documents_response(&response(200, &body), None).unwrap();
    assert_eq!(all.len(), 3);
    assert_eq!(all[0].0, "Ann");
    assert_eq!(to_json_text(&all[2].1).unwrap(), r#"{"age":50,"email":"a@b.c","name":"Cy"}"#);
    let two = FirebaseClient::list_documents_response(&response(200, &body), Some(2)).unwrap();
    assert_eq!(two.len(), 2);
    assert_eq!(two[1].0, "Bob");
    let e = FirebaseClient::list_documents_response(&response(200, "nope"), None).unwrap_err();
    assert_eq!(e.kind(), ErrorKind::Database);
    assert!(e.detail().starts_with("JSON parsing failed: "));
    let e = FirebaseClient::list_documents_response(&response(503, "down"), None).unwrap_err();
    assert_eq!(e.detail(), "List failed: down");
}

#[test]
fn query_posts_the_structured_query() {
    let query = QueryBuilder::new("users").limit(1).build();
    let r = client().query_request(&query);
    assert_eq!(r.method, HttpMethod::Post);
    assert_eq!(r.url, format!("{}:runQuery?key=KEY", BASE));
    assert_eq!(
        body_text(&r.body),
        r#"{"structuredQuery":{"from":[{"collectionId":"users"}],"limit":1}}"#
    );
}

#[test]
fn query_reads_one_result_a_line_and_passes_over_the_rest() {
    let body = format!(
        "{{\"document\":{},\"readTime\":\"t\"}}\n\n   \nnot json\n{{\"readTime\":\"t\"}}\r\n{{\"document\":{}}}\n",
        user_document("Ann", "30"),
        user_document("Bob", "40")
    );
    let users: Vec<User> = FirebaseClient::query_response(&response(200, &body)).unwrap();
    assert_eq!(users.len(), 2);
    assert_eq!(users[0].name, "Ann");
    assert_eq!(users[1].name, "Bob");
    let none: Vec<User> = FirebaseClient::query_response(&response(200, "")).unwrap();
    assert!(none.is_empty());
    let e = FirebaseClient::query_response::<User>(&response(400, "bad query")).unwrap_err();
    assert_eq!(e.kind(), ErrorKind::Database);
    assert_eq!(e.detail(), "Failed to run query: bad query");
}

#[test]
fn a_line_of_a_query_holds_a_document_or_none() {
    assert!(document_on_line("").is_none());
    assert!(document_on_line("  \t").is_none());
    assert!(document_on_line("{").is_none());
    assert!(document_on_line(r#"{"readTime":"t"}"#).is_none());
    let line = format!(r#"{{"document":{}}}"#, user_document("Ann", "30"));
    let d = document_on_line(&line).unwrap();
    assert_eq!(d.name, "projects/demo/databases/(default)/documents/users/Ann");
    assert_eq!(d.create_time.as_deref(), Some("2024-01-01T00:00:00Z"));
    assert_eq!(d.update_time.as_deref(), Some("2024-01-02T00:00:00Z"));
    assert_eq!(d.fields.len(), 3);
    let envelope = parse_json(&line).unwrap();
    assert!(envelope_document(&envelope).is_some());
}

#[test]
fn what_was_created_reads_back_as_it_was_sent() {
    let payload = parse_json(
        r#"{"name": "Ann", "age": 30, "score": 2.5, "tags": ["a", {"b": null}], "ok": false}"#,
    )
    .unwrap();
    let request = client().create_document_request("users", None, &payload).unwrap();
    let sent = request.body.unwrap();
    let stored = JsonValue::Object(vec![
        ("name".to_string(), JsonValue::String("projects/demo/x/users/new1".to_string())),
        ("fields".to_string(), sent.get("fields").unwrap().clone_value()),
        ("createTime".to_string(), JsonValue::String("2024-01-01T00:00:00Z".to_string())),
    ]);
    let body = to_json_text(&stored).unwrap();
    assert_eq!(FirebaseClient::create_document_response(&response(200, &body)).unwrap(), "new1");
    let back =
        FirebaseClient::get_document_response("users", "new1", &response(200, &body)).unwrap();
    assert_eq!(to_json_text(&back), to_json_text(&payload));
}

#[test]
fn a_value_of_an_unknown_kind_does_not_fail_a_document() {
    let body = r#"{"name":"a/b","fields":{"where":{"geoPointValue":{"latitude":1}}}}"#;
    let v = FirebaseClient::get_document_response("c", "b", &response(200, body)).unwrap();
    assert_eq!(to_json_text(&v).unwrap(), r#"{"where":"(unknown value type)"}"#);
    assert!(matches!(
        firebase_db::wire::decode_value(&parse_json(r#"{"x":1,"y":2}"#).unwrap()),
        FirestoreValue::Unknown
    ));
}

#[test]
fn dynamic_reads_ask_at_the_same_addresses_as_typed_ones() {
    let c = client();
    let one = c.get_document_request("users", "u1");
    assert_eq!(one.method, HttpMethod::Get);
    assert_eq!(one.url, c.get_request("users", "u1").url);
    assert!(one.body.is_none());
    let page = c.list_documents_request("users");
    assert_eq!(page.method, HttpMethod::Get);
    assert_eq!(page.url, c.list_request("users", None).url);
    assert!(page.url.ends_with("/users?key=KEY"));
    assert!(page.body.is_none());
}

#[test]
fn list_readings_say_what_became_of_each_entry() {
    let body = format!(
        r#"{{"documents":[{},{{"name":"x","fields":{{"age":{{"integerValue":"1"}}}}}},17,{}]}}"#,
        user_document("Ann", "30"),
        user_document("Bob", "40")
    );
    let each: Vec<Reading<User>> = FirebaseClient::list_readings(&response(200, &body)).unwrap();
    assert_eq!(each.len(), 4);
    assert!(matches!(&each[0], Reading::Record(u) if u.name == "Ann"));
    assert!(matches!(&each[1], Reading::Rejected(e) if e.field_name() == "name"));
    assert!(matches!(&each[2], Reading::NoDocument));
    assert!(matches!(&each[3], Reading::Record(u) if u.name == "Bob" && u.age == 40));
    let records = each.iter().filter(|r| matches!(r, Reading::Record(_))).count();
    let listed: Vec<User> = FirebaseClient::list_response(&response(200, &body)).unwrap();
    assert_eq!(records, listed.len());
    let e = FirebaseClient::list_readings::<User>(&response(500, "x")).unwrap_err();
    assert_eq!(e.detail(), "Failed to list documents: x");
    let e = FirebaseClient::list_readings::<User>(&response(200, "<html>")).unwrap_err();
    assert_eq!(e.kind(), ErrorKind::Serde);
}

#[test]
fn query_readings_say_what_became_of_each_line() {
    let body = format!(
        "{{\"document\":{}}}\n\nnot json\n{{\"readTime\":\"t\"}}\n{{\"document\":{{\"name\":\"x\",\"fields\":{{}}}}}}",
        user_document("Ann", "30")
    );
    let each: Vec<Reading<User>> = FirebaseClient::query_readings(&response(200, &body)).unwrap();
    assert_eq!(each.len(), 5);
    assert!(matches!(&each[0], Reading::Record(u) if u.name == "Ann"));
    assert!(matches!(&each[1], Reading::NoDocument));
    assert!(matches!(&each[2], Reading::NoDocument));
    assert!(matches!(&each[3], Reading::NoDocument));
    assert!(matches!(&each[4], Reading::Rejected(_)));
    let e = FirebaseClient::query_readings::<User>(&response(400, "bad query")).unwrap_err();
    assert_eq!(e.detail(), "Failed to run query: bad query");
}
