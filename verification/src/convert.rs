//! Conversion between the dynamic value that callers hold and the value that
//! the store speaks, in both directions.
//!
//! Going to the store, a number becomes an integer value where it is an
//! integer of the signed 64-bit range, and a double value otherwise; an
//! unsigned number above that range loses digits on the way. Coming back, an
//! integer value whose text is no 64-bit integer is read as 0, and a value of
//! an unknown kind becomes a fixed text.

use vstd::prelude::*;
use crate::error::{validation_error, FirebaseError};
use crate::json::{
    entries_view, lemma_view_array, lemma_view_object, values_view, JsonModel, JsonNumber,
    JsonNumberModel, JsonValue,
};
use crate::models::{
    fields_view, fields_wf, lemma_view_map, lemma_view_values, wire_values_view, FieldsModel,
    FirestoreFields, FirestoreModel, FirestoreValue,
};
use crate::text::{
    decimal, decimal_int, format_i64, format_u64, lemma_parse_format_i64, parse_i64,
    parse_i64_spec,
};

verus! {

/// The JSON text of the double nearest to an unsigned integer.
pub uninterp spec fn double_text_of_unsigned(u: u64) -> Seq<char>;

/// `serde_json::Number::as_f64` on the unsigned integer `u`, which gives the
/// nearest double, then the text that `serde_json` prints for that double.
#[verifier::external_body]
fn unsigned_as_double_text(u: u64) -> (r: String)
    ensures
        r@ == double_text_of_unsigned(u),
{
    serde_json::Number::from(u).as_f64().and_then(serde_json::Number::from_f64).map(
        |n| n.to_string(),
    ).unwrap_or_default()
}

/// The text that stands for a value of an unknown kind.
pub open spec fn unknown_marker() -> Seq<char> {
    "(unknown value type)"@
}

/// The store's value for a number.
pub open spec fn wire_of_number(n: JsonNumberModel) -> FirestoreModel {
    match n {
        JsonNumberModel::Integer(i) => FirestoreModel::IntegerValue(decimal_int(i as int)),
        JsonNumberModel::Unsigned(u) => if u <= i64::MAX {
            FirestoreModel::IntegerValue(decimal(u as nat))
        } else {
            FirestoreModel::DoubleValue(double_text_of_unsigned(u))
        },
        JsonNumberModel::Double(t) => FirestoreModel::DoubleValue(t),
    }
}

/// The store's value for a dynamic value.
pub open spec fn wire_of_json(v: JsonModel) -> FirestoreModel
    decreases v,
{
    match v {
        JsonModel::Null => FirestoreModel::NullValue,
        JsonModel::Bool(b) => FirestoreModel::BooleanValue(b),
        JsonModel::Number(n) => wire_of_number(n),
        JsonModel::String(s) => FirestoreModel::StringValue(s),
        JsonModel::Array(items) => FirestoreModel::ArrayValue(
            Seq::new(
                items.len(),
                |i: int|
                    if 0 <= i < items.len() {
                        wire_of_json(items[i])
                    } else {
                        FirestoreModel::NullValue
                    },
            ),
        ),
        JsonModel::Object(entries) => FirestoreModel::MapValue(
            Seq::new(
                entries.len(),
                |i: int|
                    if 0 <= i < entries.len() {
                        (entries[i].0, wire_of_json(entries[i].1))
                    } else {
                        (Seq::empty(), FirestoreModel::NullValue)
                    },
            ),
        ),
    }
}

/// The store's fields for the entries of an object.
pub open spec fn wire_of_entries(entries: Seq<(Seq<char>, JsonModel)>) -> FieldsModel {
    Seq::new(entries.len(), |i: int| (entries[i].0, wire_of_json(entries[i].1)))
}

/// The dynamic value for a value of the store. An integer comes out as a
/// number where its text is a 64-bit integer, and as its text where it is
/// not: nothing stands in for a value that does not fit.
pub open spec fn json_of_wire(v: FirestoreModel) -> JsonModel
    decreases v,
{
    match v {
        FirestoreModel::StringValue(s) => JsonModel::String(s),
        FirestoreModel::IntegerValue(s) => match parse_i64_spec(s) {
            Some(i) => JsonModel::Number(JsonNumberModel::Integer(i)),
            None => JsonModel::String(s),
        },
        FirestoreModel::DoubleValue(t) => JsonModel::Number(JsonNumberModel::Double(t)),
        FirestoreModel::BooleanValue(b) => JsonModel::Bool(b),
        FirestoreModel::TimestampValue(s) => JsonModel::String(s),
        FirestoreModel::NullValue => JsonModel::Null,
        FirestoreModel::Unknown => JsonModel::String(unknown_marker()),
        FirestoreModel::ArrayValue(values) => JsonModel::Array(
            Seq::new(
                values.len(),
                |i: int|
                    if 0 <= i < values.len() {
                        json_of_wire(values[i])
                    } else {
                        JsonModel::Null
                    },
            ),
        ),
        FirestoreModel::MapValue(fields) => JsonModel::Object(
            Seq::new(
                fields.len(),
                |i: int|
                    if 0 <= i < fields.len() {
                        (fields[i].0, json_of_wire(fields[i].1))
                    } else {
                        (Seq::empty(), JsonModel::Null)
                    },
            ),
        ),
    }
}

/// The entries of an object for the fields of the store.
pub open spec fn json_of_fields(fields: FieldsModel) -> Seq<(Seq<char>, JsonModel)> {
    Seq::new(fields.len(), |i: int| (fields[i].0, json_of_wire(fields[i].1)))
}

/// No number in the value stands in the unsigned variant, which is for the
/// integers above the signed 64-bit range.
pub open spec fn fits_in_64_bits(v: JsonModel) -> bool
    decreases v,
{
    match v {
        JsonModel::Number(n) => !(n is Unsigned),
        JsonModel::Array(items) => forall|i: int|
            0 <= i < items.len() ==> fits_in_64_bits(#[trigger] items[i]),
        JsonModel::Object(entries) => forall|i: int|
            0 <= i < entries.len() ==> fits_in_64_bits((#[trigger] entries[i]).1),
        _ => true,
    }
}

/// Round trip: a dynamic value without an integer beyond 64 bits comes back
/// from the store's terms as it went in.
pub proof fn lemma_json_round_trip(v: JsonModel)
    requires
        fits_in_64_bits(v),
    ensures
        json_of_wire(wire_of_json(v)) == v,
    decreases v,
{
    match v {
        JsonModel::Number(n) => {
            match n {
                JsonNumberModel::Integer(i) => {
                    lemma_parse_format_i64(i);
                },
                _ => {},
            }
        },
        JsonModel::Array(items) => {
            let wire = wire_of_json(v)->ArrayValue_0;
            let back = json_of_wire(wire_of_json(v))->Array_0;
            assert forall|i: int| 0 <= i < items.len() implies back[i] == items[i] by {
                assert(wire[i] == wire_of_json(items[i]));
                lemma_json_round_trip(items[i]);
            }
            assert(back =~= items);
        },
        JsonModel::Object(entries) => {
            let wire = wire_of_json(v)->MapValue_0;
            let back = json_of_wire(wire_of_json(v))->Object_0;
            assert forall|i: int| 0 <= i < entries.len() implies back[i] == entries[i] by {
                assert(wire[i] == (entries[i].0, wire_of_json(entries[i].1)));
                lemma_json_round_trip(entries[i].1);
            }
            assert(back =~= entries);
        },
        _ => {},
    }
}

/// Round trip for the fields of a document: they come back as they went in.
pub proof fn lemma_fields_round_trip(entries: Seq<(Seq<char>, JsonModel)>)
    requires
        fits_in_64_bits(JsonModel::Object(entries)),
    ensures
        json_of_fields(wire_of_entries(entries)) == entries,
{
    let back = json_of_fields(wire_of_entries(entries));
    lemma_json_round_trip(JsonModel::Object(entries));
    assert(json_of_wire(wire_of_json(JsonModel::Object(entries)))->Object_0 =~= back);
}

/// Going to the store keeps a value well-formed.
pub proof fn lemma_wire_of_json_wf(v: JsonModel)
    requires
        v.wf(),
    ensures
        wire_of_json(v).wf(),
    decreases v,
{
    match v {
        JsonModel::Number(n) => {},
        JsonModel::Array(items) => {
            let wire = wire_of_json(v)->ArrayValue_0;
            assert forall|i: int| 0 <= i < wire.len() implies (#[trigger] wire[i]).wf() by {
                assert(items[i].wf());
                lemma_wire_of_json_wf(items[i]);
            }
        },
        JsonModel::Object(entries) => {
            let wire = wire_of_json(v)->MapValue_0;
            assert forall|i: int| 0 <= i < wire.len() implies (#[trigger] wire[i]).1.wf() by {
                assert(entries[i].1.wf());
                lemma_wire_of_json_wf(entries[i].1);
            }
            assert forall|i: int, j: int| 0 <= i < j < wire.len() implies (#[trigger] wire[i]).0
                != (#[trigger] wire[j]).0 by {
                assert(entries[i].0 != entries[j].0);
            }
        },
        _ => {},
    }
}

/// Coming back from the store keeps a value well-formed.
pub proof fn lemma_json_of_wire_wf(v: FirestoreModel)
    requires
        v.wf(),
    ensures
        json_of_wire(v).wf(),
    decreases v,
{
    match v {
        FirestoreModel::ArrayValue(values) => {
            let back = json_of_wire(v)->Array_0;
            assert forall|i: int| 0 <= i < back.len() implies (#[trigger] back[i]).wf() by {
                assert(values[i].wf());
                lemma_json_of_wire_wf(values[i]);
            }
        },
        FirestoreModel::MapValue(fields) => {
            let back = json_of_wire(v)->Object_0;
            assert forall|i: int| 0 <= i < back.len() implies (#[trigger] back[i]).1.wf() by {
                assert(fields[i].1.wf());
                lemma_json_of_wire_wf(fields[i].1);
            }
            assert forall|i: int, j: int| 0 <= i < j < back.len() implies (#[trigger] back[i]).0
                != (#[trigger] back[j]).0 by {
                assert(fields[i].0 != fields[j].0);
            }
        },
        _ => {},
    }
}

fn number_to_firestore(n: &JsonNumber) -> (r: FirestoreValue)
    ensures
        r@ == wire_of_number(n.model()),
{
    match n {
        JsonNumber::Integer(i) => FirestoreValue::IntegerValue(format_i64(*i)),
        JsonNumber::Unsigned(u) => {
            if *u <= 9223372036854775807u64 {
                FirestoreValue::IntegerValue(format_u64(*u))
            } else {
                FirestoreValue::DoubleValue(unsigned_as_double_text(*u))
            }
        },
        JsonNumber::Double(t) => FirestoreValue::DoubleValue(t.clone()),
    }
}

/// The store's value for a dynamic value. Total: every dynamic value has one.
pub fn json_value_to_firestore(value: &JsonValue) -> (r: FirestoreValue)
    ensures
        r@ == wire_of_json(value@),
        value@.wf() ==> r@.wf(),
    decreases value,
{
    proof {
        if value@.wf() {
            lemma_wire_of_json_wf(value@);
        }
    }
    match value {
        JsonValue::String(s) => FirestoreValue::StringValue(s.clone()),
        JsonValue::Number(n) => number_to_firestore(n),
        JsonValue::Bool(b) => FirestoreValue::BooleanValue(*b),
        JsonValue::Null => FirestoreValue::NullValue,
        JsonValue::Array(items) => {
            let mut values: Vec<FirestoreValue> = Vec::new();
            let mut i: usize = 0;
            while i < items.len()
                invariant
                    i <= items.len(),
                    values@.len() == i,
                    *value == JsonValue::Array(*items),
                    forall|j: int|
                        0 <= j < i ==> (#[trigger] values@[j])@ == wire_of_json(items@[j]@),
                decreases items.len() - i,
            {
                assert(decreases_to!(*value => value->Array_0[i as int]));
                values.push(json_value_to_firestore(&items[i]));
                i += 1;
            }
            proof {
                lemma_view_array(*items);
                lemma_view_values(values);
                assert(wire_values_view(values@) =~= wire_of_json(value@)->ArrayValue_0);
            }
            FirestoreValue::ArrayValue { values }
        },
        JsonValue::Object(entries) => {
            let mut fields: Vec<(String, FirestoreValue)> = Vec::new();
            let mut i: usize = 0;
            while i < entries.len()
                invariant
                    i <= entries.len(),
                    fields@.len() == i,
                    *value == JsonValue::Object(*entries),
                    forall|j: int|
                        0 <= j < i ==> (#[trigger] fields@[j]).0@ == entries@[j].0@
                            && fields@[j].1@ == wire_of_json(entries@[j].1@),
                decreases entries.len() - i,
            {
                assert(decreases_to!(*value => value->Object_0[i as int].1));
                fields.push((entries[i].0.clone(), json_value_to_firestore(&entries[i].1)));
                i += 1;
            }
            proof {
                lemma_view_object(*entries);
                lemma_view_map(fields);
                assert(fields_view(fields@) =~= wire_of_json(value@)->MapValue_0);
            }
            FirestoreValue::MapValue { fields }
        },
    }
}

/// The dynamic value for a value of the store. Total: it never fails, and
/// it loses nothing: an integer whose text is no 64-bit integer comes out as
/// that text, not as a number that it is not.
pub fn firestore_value_to_json(value: &FirestoreValue) -> (r: JsonValue)
    ensures
        r@ == json_of_wire(value@),
        value@.wf() ==> r@.wf(),
    decreases value,
{
    proof {
        if value@.wf() {
            lemma_json_of_wire_wf(value@);
        }
    }
    match value {
        FirestoreValue::StringValue(s) => JsonValue::String(s.clone()),
        FirestoreValue::IntegerValue(s) => match parse_i64(s.as_str()) {
            Some(i) => JsonValue::Number(JsonNumber::Integer(i)),
            None => JsonValue::String(s.clone()),
        },
        FirestoreValue::DoubleValue(t) => JsonValue::Number(JsonNumber::Double(t.clone())),
        FirestoreValue::BooleanValue(b) => JsonValue::Bool(*b),
        FirestoreValue::NullValue => JsonValue::Null,
        FirestoreValue::TimestampValue(s) => JsonValue::String(s.clone()),
        FirestoreValue::Unknown => JsonValue::String(String::from_str("(unknown value type)")),
        FirestoreValue::ArrayValue { values } => {
            let mut items: Vec<JsonValue> = Vec::new();
            let mut i: usize = 0;
            while i < values.len()
                invariant
                    i <= values.len(),
                    items@.len() == i,
                    *value == (FirestoreValue::ArrayValue { values: *values }),
                    forall|j: int|
                        0 <= j < i ==> (#[trigger] items@[j])@ == json_of_wire(values@[j]@),
                decreases values.len() - i,
            {
                assert(decreases_to!(*value => value->values[i as int]));
                items.push(firestore_value_to_json(&values[i]));
                i += 1;
            }
            proof {
                lemma_view_values(*values);
                lemma_view_array(items);
                assert(values_view(items@) =~= json_of_wire(value@)->Array_0);
            }
            JsonValue::Array(items)
        },
        FirestoreValue::MapValue { fields } => {
            let mut entries: Vec<(String, JsonValue)> = Vec::new();
            let mut i: usize = 0;
            while i < fields.len()
                invariant
                    i <= fields.len(),
                    entries@.len() == i,
                    *value == (FirestoreValue::MapValue { fields: *fields }),
                    forall|j: int|
                        0 <= j < i ==> (#[trigger] entries@[j]).0@ == fields@[j].0@
                            && entries@[j].1@ == json_of_wire(fields@[j].1@),
                decreases fields.len() - i,
            {
                assert(decreases_to!(*value => value->fields[i as int].1));
                entries.push((fields[i].0.clone(), firestore_value_to_json(&fields[i].1)));
                i += 1;
            }
            proof {
                lemma_view_map(*fields);
                lemma_view_object(entries);
                assert(entries_view(entries@) =~= json_of_wire(value@)->Object_0);
            }
            JsonValue::Object(entries)
        },
    }
}

/// The store's fields for a document given as a dynamic value. The document
/// must be an object: anything else is a `ValidationError`.
pub fn json_to_firestore_fields(value: &JsonValue) -> (r: Result<FirestoreFields, FirebaseError>)
    ensures
        match r {
            Ok(fields) => value@ is Object && fields_view(fields@) == wire_of_entries(
                value@->Object_0,
            ) && (value@.wf() ==> fields_wf(fields_view(fields@))),
            Err(e) => !(value@ is Object) && e@ == validation_error(
                "Root value must be an object"@,
            ),
        },
{
    match value {
        JsonValue::Object(entries) => {
            let mut fields: Vec<(String, FirestoreValue)> = Vec::new();
            let mut i: usize = 0;
            while i < entries.len()
                invariant
                    i <= entries.len(),
                    fields@.len() == i,
                    forall|j: int|
                        0 <= j < i ==> (#[trigger] fields@[j]).0@ == entries@[j].0@
                            && fields@[j].1@ == wire_of_json(entries@[j].1@),
                decreases entries.len() - i,
            {
                fields.push((entries[i].0.clone(), json_value_to_firestore(&entries[i].1)));
                i += 1;
            }
            proof {
                lemma_view_object(*entries);
                assert(fields_view(fields@) =~= wire_of_entries(value@->Object_0));
                if value@.wf() {
                    lemma_wire_of_json_wf(value@);
                    assert(wire_of_json(value@)->MapValue_0 =~= wire_of_entries(value@->Object_0));
                }
            }
            Ok(fields)
        },
        _ => Err(FirebaseError::ValidationError(String::from_str("Root value must be an object"))),
    }
}

/// The document, as a dynamic object, for the fields of the store.
pub fn firestore_fields_to_json(fields: &FirestoreFields) -> (r: JsonValue)
    ensures
        r@ == JsonModel::Object(json_of_fields(fields_view(fields@))),
{
    let mut entries: Vec<(String, JsonValue)> = Vec::new();
    let mut i: usize = 0;
    while i < fields.len()
        invariant
            i <= fields.len(),
            entries@.len() == i,
            forall|j: int|
                0 <= j < i ==> (#[trigger] entries@[j]).0@ == fields@[j].0@ && entries@[j].1@
                    == json_of_wire(fields@[j].1@),
        decreases fields.len() - i,
    {
        entries.push((fields[i].0.clone(), firestore_value_to_json(&fields[i].1)));
        i += 1;
    }
    proof {
        lemma_view_object(entries);
        assert(entries_view(entries@) =~= json_of_fields(fields_view(fields@)));
    }
    JsonValue::Object(entries)
}

} // verus!
