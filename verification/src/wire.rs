//! The JSON shape in which the store sends and receives values and documents.
//!
//! A value is an object with one member, whose name says the kind of the
//! value: `stringValue`, `integerValue`, `doubleValue`, `booleanValue`,
//! `timestampValue`, `mapValue` (with `fields`), `arrayValue` (with `values`) or
//! `nullValue`. Anything else is read as a value of an unknown kind.

use vstd::prelude::*;
use crate::error::FirebaseError;
use crate::json::{
    entries_view, index_of_key, lemma_index_of_key, lemma_view_array, lemma_view_object, lookup,
    values_view, JsonModel, JsonNumber, JsonNumberModel, JsonValue,
};
use crate::models::{
    fields_view, lemma_view_map, lemma_view_values, wire_values_view, FieldsModel,
    FirestoreFields, FirestoreModel, FirestoreValue,
};
use crate::text::{decimal, decimal_int, format_i64, format_u64, str_eq};

verus! {

/// An object with the one member `tag`.
pub open spec fn tagged(tag: Seq<char>, value: JsonModel) -> JsonModel {
    JsonModel::Object(seq![(tag, value)])
}

/// The JSON shape of a value.
pub open spec fn encode_value_model(v: FirestoreModel) -> JsonModel
    decreases v,
{
    match v {
        FirestoreModel::StringValue(s) => tagged("stringValue"@, JsonModel::String(s)),
        FirestoreModel::IntegerValue(s) => tagged("integerValue"@, JsonModel::String(s)),
        FirestoreModel::DoubleValue(t) => tagged(
            "doubleValue"@,
            JsonModel::Number(JsonNumberModel::Double(t)),
        ),
        FirestoreModel::BooleanValue(b) => tagged("booleanValue"@, JsonModel::Bool(b)),
        FirestoreModel::TimestampValue(s) => tagged("timestampValue"@, JsonModel::String(s)),
        FirestoreModel::MapValue(fields) => tagged(
            "mapValue"@,
            tagged(
                "fields"@,
                JsonModel::Object(
                    Seq::new(
                        fields.len(),
                        |i: int|
                            if 0 <= i < fields.len() {
                                (fields[i].0, encode_value_model(fields[i].1))
                            } else {
                                (Seq::empty(), JsonModel::Null)
                            },
                    ),
                ),
            ),
        ),
        FirestoreModel::ArrayValue(values) => tagged(
            "arrayValue"@,
            tagged(
                "values"@,
                JsonModel::Array(
                    Seq::new(
                        values.len(),
                        |i: int|
                            if 0 <= i < values.len() {
                                encode_value_model(values[i])
                            } else {
                                JsonModel::Null
                            },
                    ),
                ),
            ),
        ),
        FirestoreModel::NullValue => tagged("nullValue"@, JsonModel::Null),
        FirestoreModel::Unknown => JsonModel::String("unknown"@),
    }
}

/// The JSON shape of the fields of a document: an object with one member for
/// each field.
pub open spec fn encode_fields_model(fields: FieldsModel) -> JsonModel {
    JsonModel::Object(
        Seq::new(fields.len(), |i: int| (fields[i].0, encode_value_model(fields[i].1))),
    )
}

/// The text of a number as it stands in a double value.
pub open spec fn number_text(n: JsonNumberModel) -> Seq<char> {
    match n {
        JsonNumberModel::Integer(i) => decimal_int(i as int),
        JsonNumberModel::Unsigned(u) => decimal(u as nat),
        JsonNumberModel::Double(t) => t,
    }
}

/// The array under the member `key` of `inner`: empty where there is none.
pub open spec fn member_items(inner: JsonModel, key: Seq<char>) -> Seq<JsonModel> {
    match inner {
        JsonModel::Object(entries) => match index_of_key(entries, key) {
            Some(k) => if 0 <= k < entries.len() {
                match entries[k].1 {
                    JsonModel::Array(items) => items,
                    _ => Seq::empty(),
                }
            } else {
                Seq::empty()
            },
            None => Seq::empty(),
        },
        _ => Seq::empty(),
    }
}

/// The object under the member `key` of `inner`: empty where there is none.
pub open spec fn member_entries(inner: JsonModel, key: Seq<char>) -> Seq<(Seq<char>, JsonModel)> {
    match inner {
        JsonModel::Object(entries) => match index_of_key(entries, key) {
            Some(k) => if 0 <= k < entries.len() {
                match entries[k].1 {
                    JsonModel::Object(found) => found,
                    _ => Seq::empty(),
                }
            } else {
                Seq::empty()
            },
            None => Seq::empty(),
        },
        _ => Seq::empty(),
    }
}

/// The value that a JSON shape denotes. An object with one member of a known
/// name and of the right kind is that value; everything else is `Unknown`.
pub open spec fn decode_value_model(j: JsonModel) -> FirestoreModel
    decreases j,
{
    match j {
        JsonModel::Object(entries) => if entries.len() == 1 {
            let tag = entries[0].0;
            let inner = entries[0].1;
            if tag == "stringValue"@ {
                match inner {
                    JsonModel::String(s) => FirestoreModel::StringValue(s),
                    _ => FirestoreModel::Unknown,
                }
            } else if tag == "integerValue"@ {
                match inner {
                    JsonModel::String(s) => FirestoreModel::IntegerValue(s),
                    _ => FirestoreModel::Unknown,
                }
            } else if tag == "doubleValue"@ {
                match inner {
                    JsonModel::Number(n) => FirestoreModel::DoubleValue(number_text(n)),
                    _ => FirestoreModel::Unknown,
                }
            } else if tag == "booleanValue"@ {
                match inner {
                    JsonModel::Bool(b) => FirestoreModel::BooleanValue(b),
                    _ => FirestoreModel::Unknown,
                }
            } else if tag == "timestampValue"@ {
                match inner {
                    JsonModel::String(s) => FirestoreModel::TimestampValue(s),
                    _ => FirestoreModel::Unknown,
                }
            } else if tag == "mapValue"@ {
                let found = member_entries(inner, "fields"@);
                FirestoreModel::MapValue(
                    Seq::new(
                        found.len(),
                        |i: int|
                            if 0 <= i < found.len() {
                                (found[i].0, decode_value_model(found[i].1))
                            } else {
                                (Seq::empty(), FirestoreModel::NullValue)
                            },
                    ),
                )
            } else if tag == "arrayValue"@ {
                let found = member_items(inner, "values"@);
                FirestoreModel::ArrayValue(
                    Seq::new(
                        found.len(),
                        |i: int|
                            if 0 <= i < found.len() {
                                decode_value_model(found[i])
                            } else {
                                FirestoreModel::NullValue
                            },
                    ),
                )
            } else if tag == "nullValue"@ {
                FirestoreModel::NullValue
            } else {
                FirestoreModel::Unknown
            }
        } else {
            FirestoreModel::Unknown
        },
        _ => FirestoreModel::Unknown,
    }
}

/// The fields that the members of a JSON object denote.
pub open spec fn decode_fields_model(entries: Seq<(Seq<char>, JsonModel)>) -> FieldsModel {
    Seq::new(entries.len(), |i: int| (entries[i].0, decode_value_model(entries[i].1)))
}


proof fn lemma_tags_differ()
    ensures
        "stringValue"@ != "integerValue"@,
        "stringValue"@ != "doubleValue"@,
        "stringValue"@ != "booleanValue"@,
        "stringValue"@ != "timestampValue"@,
        "stringValue"@ != "mapValue"@,
        "stringValue"@ != "arrayValue"@,
        "stringValue"@ != "nullValue"@,
        "integerValue"@ != "doubleValue"@,
        "integerValue"@ != "booleanValue"@,
        "integerValue"@ != "timestampValue"@,
        "integerValue"@ != "mapValue"@,
        "integerValue"@ != "arrayValue"@,
        "integerValue"@ != "nullValue"@,
        "doubleValue"@ != "booleanValue"@,
        "doubleValue"@ != "timestampValue"@,
        "doubleValue"@ != "mapValue"@,
        "doubleValue"@ != "arrayValue"@,
        "doubleValue"@ != "nullValue"@,
        "booleanValue"@ != "timestampValue"@,
        "booleanValue"@ != "mapValue"@,
        "booleanValue"@ != "arrayValue"@,
        "booleanValue"@ != "nullValue"@,
        "timestampValue"@ != "mapValue"@,
        "timestampValue"@ != "arrayValue"@,
        "timestampValue"@ != "nullValue"@,
        "mapValue"@ != "arrayValue"@,
        "mapValue"@ != "nullValue"@,
        "arrayValue"@ != "nullValue"@,
{
    reveal_strlit("stringValue");
    reveal_strlit("integerValue");
    reveal_strlit("doubleValue");
    reveal_strlit("booleanValue");
    reveal_strlit("timestampValue");
    reveal_strlit("mapValue");
    reveal_strlit("arrayValue");
    reveal_strlit("nullValue");
    assert("stringValue"@[0] == 's');
    assert("integerValue"@[0] == 'i');
    assert("doubleValue"@[0] == 'd');
    assert("booleanValue"@[0] == 'b');
    assert("timestampValue"@[0] == 't');
    assert("mapValue"@[0] == 'm');
    assert("arrayValue"@[0] == 'a');
    assert("nullValue"@[0] == 'n');
}

/// Reading back the JSON shape of a value gives the value.
pub proof fn lemma_decode_encode(v: FirestoreModel)
    ensures
        decode_value_model(encode_value_model(v)) == v,
    decreases v,
{
    lemma_tags_differ();
    match v {
        FirestoreModel::MapValue(fields) => {
            let encoded = encode_value_model(v);
            let inner = encoded->Object_0[0].1;
            let found = member_entries(inner, "fields"@);
            let shaped = inner->Object_0[0].1->Object_0;
            assert(index_of_key(inner->Object_0, "fields"@) == Some(0int));
            assert(found == shaped);
            let back = decode_value_model(encoded)->MapValue_0;
            assert forall|i: int| 0 <= i < fields.len() implies back[i] == fields[i] by {
                assert(found[i] == (fields[i].0, encode_value_model(fields[i].1)));
                lemma_decode_encode(fields[i].1);
            }
            assert(back =~= fields);
        },
        FirestoreModel::ArrayValue(values) => {
            let encoded = encode_value_model(v);
            let inner = encoded->Object_0[0].1;
            let found = member_items(inner, "values"@);
            let shaped = inner->Object_0[0].1->Array_0;
            assert(index_of_key(inner->Object_0, "values"@) == Some(0int));
            assert(found == shaped);
            let back = decode_value_model(encoded)->ArrayValue_0;
            assert forall|i: int| 0 <= i < values.len() implies back[i] == values[i] by {
                assert(found[i] == encode_value_model(values[i]));
                lemma_decode_encode(values[i]);
            }
            assert(back =~= values);
        },
        _ => {},
    }
}

/// Reading back the JSON shape of the fields of a document gives the fields.
pub proof fn lemma_decode_encode_fields(fields: FieldsModel)
    ensures
        decode_fields_model(encode_fields_model(fields)->Object_0) == fields,
{
    let back = decode_fields_model(encode_fields_model(fields)->Object_0);
    assert forall|i: int| 0 <= i < fields.len() implies back[i] == fields[i] by {
        lemma_decode_encode(fields[i].1);
    }
    assert(back =~= fields);
}

fn single(tag: &str, value: JsonValue) -> (r: JsonValue)
    ensures
        r@ == tagged(tag@, value@),
{
    let mut entries: Vec<(String, JsonValue)> = Vec::new();
    entries.push((String::from_str(tag), value));
    proof {
        lemma_view_object(entries);
        assert(entries_view(entries@) =~= seq![(tag@, value@)]);
    }
    JsonValue::Object(entries)
}

/// The JSON shape of a value.
pub fn encode_value(value: &FirestoreValue) -> (r: JsonValue)
    ensures
        r@ == encode_value_model(value@),
    decreases value,
{
    match value {
        FirestoreValue::StringValue(s) => single("stringValue", JsonValue::String(s.clone())),
        FirestoreValue::IntegerValue(s) => single("integerValue", JsonValue::String(s.clone())),
        FirestoreValue::DoubleValue(t) => single(
            "doubleValue",
            JsonValue::Number(JsonNumber::Double(t.clone())),
        ),
        FirestoreValue::BooleanValue(b) => single("booleanValue", JsonValue::Bool(*b)),
        FirestoreValue::TimestampValue(s) => single("timestampValue", JsonValue::String(s.clone())),
        FirestoreValue::NullValue => single("nullValue", JsonValue::Null),
        FirestoreValue::Unknown => JsonValue::String(String::from_str("unknown")),
        FirestoreValue::ArrayValue { values } => {
            let mut items: Vec<JsonValue> = Vec::new();
            let mut i: usize = 0;
            while i < values.len()
                invariant
                    i <= values.len(),
                    items@.len() == i,
                    *value == (FirestoreValue::ArrayValue { values: *values }),
                    forall|j: int|
                        0 <= j < i ==> (#[trigger] items@[j])@ == encode_value_model(values@[j]@),
                decreases values.len() - i,
            {
                assert(decreases_to!(*value => value->values[i as int]));
                items.push(encode_value(&values[i]));
                i += 1;
            }
            proof {
                lemma_view_values(*values);
                lemma_view_array(items);
                assert(values_view(items@) =~= encode_value_model(
                    value@,
                )->Object_0[0].1->Object_0[0].1->Array_0);
            }
            single("arrayValue", single("values", JsonValue::Array(items)))
        },
        FirestoreValue::MapValue { fields } => {
            let mut entries: Vec<(String, JsonValue)> = Vec::new();
            let mut i: usize = 0;
            while i < fields.len()
                invariant
                    i <= fields.len(),
                    entries@.len() == i,
                    *value == (FirestoreValue::MapValue { fields: *fields }),
                    forall|j: int|
                        0 <= j < i ==> (#[trigger] entries@[j]).0@ == fields@[j].0@
                            && entries@[j].1@ == encode_value_model(fields@[j].1@),
                decreases fields.len() - i,
            {
                assert(decreases_to!(*value => value->fields[i as int].1));
                entries.push((fields[i].0.clone(), encode_value(&fields[i].1)));
                i += 1;
            }
            proof {
                lemma_view_map(*fields);
                lemma_view_object(entries);
                assert(entries_view(entries@) =~= encode_value_model(
                    value@,
                )->Object_0[0].1->Object_0[0].1->Object_0);
            }
            single("mapValue", single("fields", JsonValue::Object(entries)))
        },
    }
}

/// The JSON shape of the fields of a document.
pub fn encode_fields(fields: &FirestoreFields) -> (r: JsonValue)
    ensures
        r@ == encode_fields_model(fields_view(fields@)),
{
    let mut entries: Vec<(String, JsonValue)> = Vec::new();
    let mut i: usize = 0;
    while i < fields.len()
        invariant
            i <= fields.len(),
            entries@.len() == i,
            forall|j: int|
                0 <= j < i ==> (#[trigger] entries@[j]).0@ == fields@[j].0@ && entries@[j].1@
                    == encode_value_model(fields@[j].1@),
        decreases fields.len() - i,
    {
        entries.push((fields[i].0.clone(), encode_value(&fields[i].1)));
        i += 1;
    }
    proof {
        lemma_view_object(entries);
        assert(entries_view(entries@) =~= encode_fields_model(fields_view(fields@))->Object_0);
    }
    JsonValue::Object(entries)
}

fn number_to_text(n: &JsonNumber) -> (r: String)
    ensures
        r@ == number_text(n.model()),
{
    match n {
        JsonNumber::Integer(i) => format_i64(*i),
        JsonNumber::Unsigned(u) => format_u64(*u),
        JsonNumber::Double(t) => t.clone(),
    }
}

/// Index of the first entry of `entries` under `key`, as `index_of_key` gives it.
fn position(entries: &Vec<(String, JsonValue)>, key: &str) -> (r: Option<usize>)
    ensures
        match r {
            Some(k) => k < entries.len() && index_of_key(entries_view(entries@), key@) == Some(
                k as int,
            ),
            None => index_of_key(entries_view(entries@), key@) is None,
        },
{
    let ghost model = entries_view(entries@);
    proof {
        lemma_index_of_key(model, key@);
    }
    match crate::json::find_key(entries, key) {
        Some(k) => {
            proof {
                assert(model[k as int].0 == key@);
                assert forall|j: int| 0 <= j < k implies (#[trigger] model[j]).0 != key@ by {
                    assert(entries@[j].0@ != key@);
                }
                crate::json::lemma_index_of_key_is(model, key@, k as int);
            }
            Some(k)
        },
        None => {
            proof {
                assert forall|j: int| 0 <= j < model.len() implies (#[trigger] model[j]).0
                    != key@ by {
                    assert(entries@[j].0@ != key@);
                }
                crate::json::lemma_index_of_key_none(model, key@);
            }
            None
        },
    }
}

/// The value that a JSON shape denotes. Total: what is not understood is `Unknown`.
pub fn decode_value(j: &JsonValue) -> (r: FirestoreValue)
    ensures
        r@ == decode_value_model(j@),
    decreases j,
{
    let entries = match j {
        JsonValue::Object(entries) => entries,
        _ => {
            return FirestoreValue::Unknown;
        },
    };
    proof {
        lemma_view_object(*entries);
    }
    if entries.len() != 1 {
        return FirestoreValue::Unknown;
    }
    let tag = entries[0].0.as_str();
    let inner = &entries[0].1;
    assert(j@->Object_0[0] == (tag@, inner@));
    if str_eq(tag, "stringValue") {
        match inner {
            JsonValue::String(s) => FirestoreValue::StringValue(s.clone()),
            _ => FirestoreValue::Unknown,
        }
    } else if str_eq(tag, "integerValue") {
        match inner {
            JsonValue::String(s) => FirestoreValue::IntegerValue(s.clone()),
            _ => FirestoreValue::Unknown,
        }
    } else if str_eq(tag, "doubleValue") {
        match inner {
            JsonValue::Number(n) => FirestoreValue::DoubleValue(number_to_text(n)),
            _ => FirestoreValue::Unknown,
        }
    } else if str_eq(tag, "booleanValue") {
        match inner {
            JsonValue::Bool(b) => FirestoreValue::BooleanValue(*b),
            _ => FirestoreValue::Unknown,
        }
    } else if str_eq(tag, "timestampValue") {
        match inner {
            JsonValue::String(s) => FirestoreValue::TimestampValue(s.clone()),
            _ => FirestoreValue::Unknown,
        }
    } else if str_eq(tag, "mapValue") {
        let mut fields: Vec<(String, FirestoreValue)> = Vec::new();
        let ghost found_model = member_entries(inner@, "fields"@);
        match inner {
            JsonValue::Object(members) => {
                proof {
                    lemma_view_object(*members);
                }
                match position(members, "fields") {
                    Some(k) => {
                        match &members[k].1 {
                            JsonValue::Object(found) => {
                                proof {
                                    lemma_view_object(*found);
                                    assert(found_model =~= entries_view(found@));
                                }
                                let mut i: usize = 0;
                                while i < found.len()
                                    invariant
                                        i <= found.len(),
                                        fields@.len() == i,
                                        *j == JsonValue::Object(*entries),
                                        entries@.len() == 1,
                                        entries@[0].1 == JsonValue::Object(*members),
                                        k < members@.len(),
                                        members@[k as int].1 == JsonValue::Object(*found),
                                        forall|x: int|
                                            0 <= x < i ==> (#[trigger] fields@[x]).0@ == found@[x].0@
                                                && fields@[x].1@ == decode_value_model(
                                                found@[x].1@,
                                            ),
                                    decreases found.len() - i,
                                {
                                    assert(decreases_to!(*j => j->Object_0[0].1->Object_0[k as int].1->Object_0[i as int].1));
                                    fields.push((found[i].0.clone(), decode_value(&found[i].1)));
                                    i += 1;
                                }
                            },
                            _ => {},
                        }
                    },
                    None => {},
                }
            },
            _ => {},
        }
        proof {
            lemma_view_map(fields);
            assert(fields_view(fields@) =~= decode_value_model(j@)->MapValue_0);
        }
        FirestoreValue::MapValue { fields }
    } else if str_eq(tag, "arrayValue") {
        let mut values: Vec<FirestoreValue> = Vec::new();
        let ghost found_model = member_items(inner@, "values"@);
        match inner {
            JsonValue::Object(members) => {
                proof {
                    lemma_view_object(*members);
                }
                match position(members, "values") {
                    Some(k) => {
                        match &members[k].1 {
                            JsonValue::Array(found) => {
                                proof {
                                    lemma_view_array(*found);
                                    assert(found_model =~= values_view(found@));
                                }
                                let mut i: usize = 0;
                                while i < found.len()
                                    invariant
                                        i <= found.len(),
                                        values@.len() == i,
                                        *j == JsonValue::Object(*entries),
                                        entries@.len() == 1,
                                        entries@[0].1 == JsonValue::Object(*members),
                                        k < members@.len(),
                                        members@[k as int].1 == JsonValue::Array(*found),
                                        forall|x: int|
                                            0 <= x < i ==> (#[trigger] values@[x])@
                                                == decode_value_model(found@[x]@),
                                    decreases found.len() - i,
                                {
                                    assert(decreases_to!(*j => j->Object_0[0].1->Object_0[k as int].1->Array_0[i as int]));
                                    values.push(decode_value(&found[i]));
                                    i += 1;
                                }
                            },
                            _ => {},
                        }
                    },
                    None => {},
                }
            },
            _ => {},
        }
        proof {
            lemma_view_values(values);
            assert(wire_values_view(values@) =~= decode_value_model(j@)->ArrayValue_0);
        }
        FirestoreValue::ArrayValue { values }
    } else if str_eq(tag, "nullValue") {
        FirestoreValue::NullValue
    } else {
        FirestoreValue::Unknown
    }
}

/// The fields that the members of a JSON object denote.
pub fn decode_fields(entries: &Vec<(String, JsonValue)>) -> (r: FirestoreFields)
    ensures
        fields_view(r@) == decode_fields_model(entries_view(entries@)),
{
    let mut fields: Vec<(String, FirestoreValue)> = Vec::new();
    let mut i: usize = 0;
    while i < entries.len()
        invariant
            i <= entries.len(),
            fields@.len() == i,
            forall|j: int|
                0 <= j < i ==> (#[trigger] fields@[j]).0@ == entries@[j].0@ && fields@[j].1@
                    == decode_value_model(entries@[j].1@),
        decreases entries.len() - i,
    {
        fields.push((entries[i].0.clone(), decode_value(&entries[i].1)));
        i += 1;
    }
    assert(fields_view(fields@) =~= decode_fields_model(entries_view(entries@)));
    fields
}


/// A document as the store sends it.
#[derive(Debug)]
pub struct Document {
    /// The full resource path of the document.
    pub name: String,
    pub fields: FirestoreFields,
    pub create_time: Option<String>,
    pub update_time: Option<String>,
}

pub ghost struct DocumentModel {
    pub name: Seq<char>,
    pub fields: FieldsModel,
    pub create_time: Option<Seq<char>>,
    pub update_time: Option<Seq<char>>,
}

/// The view of a text that may be absent.
pub open spec fn optional_view(s: Option<String>) -> Option<Seq<char>> {
    match s {
        Some(s) => Some(s@),
        None => None,
    }
}

impl View for Document {
    type V = DocumentModel;

    open spec fn view(&self) -> DocumentModel {
        DocumentModel {
            name: self.name@,
            fields: fields_view(self.fields@),
            create_time: optional_view(self.create_time),
            update_time: optional_view(self.update_time),
        }
    }
}

/// The text under the member `key`, where there is one.
pub open spec fn member_text(j: JsonModel, key: Seq<char>) -> Option<Seq<char>> {
    match j.member(key) {
        Some(JsonModel::String(s)) => Some(s),
        _ => None,
    }
}

/// The document that a JSON shape denotes: an object with a text `name` and
/// an object `fields`; `createTime` and `updateTime` are taken where they are texts.
pub open spec fn document_of_json(j: JsonModel) -> Option<DocumentModel> {
    match (j.member("name"@), j.member("fields"@)) {
        (Some(JsonModel::String(name)), Some(JsonModel::Object(entries))) => Some(
            DocumentModel {
                name,
                fields: decode_fields_model(entries),
                create_time: member_text(j, "createTime"@),
                update_time: member_text(j, "updateTime"@),
            },
        ),
        _ => None,
    }
}

fn text_member(j: &JsonValue, key: &str) -> (r: Option<String>)
    ensures
        optional_view(r) == member_text(j@, key@),
{
    match j.get(key) {
        Some(JsonValue::String(s)) => Some(s.clone()),
        _ => None,
    }
}

/// The document that a JSON shape denotes.
pub fn decode_document(j: &JsonValue) -> (r: Option<Document>)
    ensures
        r is Some <==> document_of_json(j@) is Some,
        r matches Some(d) ==> document_of_json(j@) == Some(d@),
{
    let name = match j.get("name") {
        Some(JsonValue::String(s)) => s.clone(),
        _ => {
            return None;
        },
    };
    let fields = match j.get("fields") {
        Some(JsonValue::Object(entries)) => {
            proof {
                lemma_view_object(*entries);
            }
            decode_fields(entries)
        },
        _ => {
            return None;
        },
    };
    let create_time = text_member(j, "createTime");
    let update_time = text_member(j, "updateTime");
    Some(Document { name, fields, create_time, update_time })
}

/// The JSON body of a request that writes the fields of a document.
pub open spec fn fields_body_model(fields: FieldsModel) -> JsonModel {
    tagged("fields"@, encode_fields_model(fields))
}

/// The JSON body of a request that writes the fields of a document.
pub fn fields_body(fields: &FirestoreFields) -> (r: JsonValue)
    ensures
        r@ == fields_body_model(fields_view(fields@)),
{
    single("fields", encode_fields(fields))
}

} // verus!
