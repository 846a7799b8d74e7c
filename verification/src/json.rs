//! The dynamic, JSON-like value that callers work with, and its mathematical model.
//!
//! A number is an integer that fits in 64 bits, a larger unsigned integer, or a
//! double kept as its JSON number text (the library never computes with it).
//! An object is a list of entries in insertion order; a well-formed one has no
//! key twice.

use vstd::prelude::*;
use crate::text::str_eq;
use crate::error::FirebaseError;

verus! {

#[derive(Debug)]
pub enum JsonNumber {
    /// An integer in the signed 64-bit range.
    Integer(i64),
    /// An integer above `i64::MAX`.
    Unsigned(u64),
    /// A number with a fraction or an exponent, as its JSON text.
    Double(String),
}

#[derive(Debug)]
pub enum JsonValue {
    Null,
    Bool(bool),
    Number(JsonNumber),
    String(String),
    Array(Vec<JsonValue>),
    Object(Vec<(String, JsonValue)>),
}

pub ghost enum JsonNumberModel {
    Integer(i64),
    Unsigned(u64),
    Double(Seq<char>),
}

pub ghost enum JsonModel {
    Null,
    Bool(bool),
    Number(JsonNumberModel),
    String(Seq<char>),
    Array(Seq<JsonModel>),
    Object(Seq<(Seq<char>, JsonModel)>),
}

/// No key occurs twice.
pub open spec fn keys_unique<T>(entries: Seq<(Seq<char>, T)>) -> bool {
    forall|i: int, j: int|
        0 <= i < j < entries.len() ==> (#[trigger] entries[i]).0 != (#[trigger] entries[j]).0
}

/// Index of the first entry under `key`.
pub open spec fn index_of_key<T>(entries: Seq<(Seq<char>, T)>, key: Seq<char>) -> Option<int>
    decreases entries.len(),
{
    if entries.len() == 0 {
        None
    } else if entries[0].0 == key {
        Some(0)
    } else {
        match index_of_key(entries.skip(1), key) {
            Some(i) => Some(i + 1),
            None => None,
        }
    }
}

/// The value of the first entry under `key`.
pub open spec fn lookup<T>(entries: Seq<(Seq<char>, T)>, key: Seq<char>) -> Option<T> {
    match index_of_key(entries, key) {
        Some(i) => Some(entries[i].1),
        None => None,
    }
}

pub open spec fn has_key<T>(entries: Seq<(Seq<char>, T)>, key: Seq<char>) -> bool {
    index_of_key(entries, key) is Some
}

/// The keys of the entries, in order.
pub open spec fn keys_of<T>(entries: Seq<(Seq<char>, T)>) -> Seq<Seq<char>> {
    Seq::new(entries.len(), |i: int| entries[i].0)
}

/// `entries` with `key` set to `value`: in place where the key is present, else at the end.
pub open spec fn upsert<T>(entries: Seq<(Seq<char>, T)>, key: Seq<char>, value: T) -> Seq<
    (Seq<char>, T),
> {
    match index_of_key(entries, key) {
        Some(i) => entries.update(i, (key, value)),
        None => entries.push((key, value)),
    }
}

pub proof fn lemma_index_of_key<T>(entries: Seq<(Seq<char>, T)>, key: Seq<char>)
    ensures
        match index_of_key(entries, key) {
            Some(i) => 0 <= i < entries.len() && entries[i].0 == key && forall|j: int|
                0 <= j < i ==> (#[trigger] entries[j]).0 != key,
            None => forall|j: int| 0 <= j < entries.len() ==> (#[trigger] entries[j]).0 != key,
        },
    decreases entries.len(),
{
    if entries.len() == 0 {
    } else if entries[0].0 == key {
    } else {
        let rest = entries.skip(1);
        lemma_index_of_key(rest, key);
        match index_of_key(rest, key) {
            Some(i) => {
                assert(rest[i] == entries[i + 1]);
                assert forall|j: int| 0 <= j < i + 1 implies (#[trigger] entries[j]).0 != key by {
                    if j > 0 {
                        assert(rest[j - 1] == entries[j]);
                    }
                }
            },
            None => {
                assert forall|j: int| 0 <= j < entries.len() implies (#[trigger] entries[j]).0
                    != key by {
                    if j > 0 {
                        assert(rest[j - 1] == entries[j]);
                    }
                }
            },
        }
    }
}

/// The first index under `key` is the one index that holds it and has none before it.
pub proof fn lemma_index_of_key_is<T>(entries: Seq<(Seq<char>, T)>, key: Seq<char>, i: int)
    requires
        0 <= i < entries.len(),
        entries[i].0 == key,
        forall|j: int| 0 <= j < i ==> (#[trigger] entries[j]).0 != key,
    ensures
        index_of_key(entries, key) == Some(i),
{
    lemma_index_of_key(entries, key);
}

pub proof fn lemma_index_of_key_none<T>(entries: Seq<(Seq<char>, T)>, key: Seq<char>)
    requires
        forall|j: int| 0 <= j < entries.len() ==> (#[trigger] entries[j]).0 != key,
    ensures
        index_of_key(entries, key) is None,
{
    lemma_index_of_key(entries, key);
}

/// Setting a key keeps the keys unique, makes the key present with the new value,
/// and leaves every other key as it was.
pub proof fn lemma_upsert<T>(entries: Seq<(Seq<char>, T)>, key: Seq<char>, value: T)
    requires
        keys_unique(entries),
    ensures
        keys_unique(upsert(entries, key, value)),
        lookup(upsert(entries, key, value), key) == Some(value),
        forall|other: Seq<char>|
            other != key ==> #[trigger] lookup(upsert(entries, key, value), other) == lookup(
                entries,
                other,
            ),
{
    let after = upsert(entries, key, value);
    lemma_index_of_key(entries, key);
    match index_of_key(entries, key) {
        Some(i) => {
            assert forall|a: int, b: int| 0 <= a < b < after.len() implies (#[trigger] after[a]).0
                != (#[trigger] after[b]).0 by {
                assert(after[a].0 == entries[a].0);
                assert(after[b].0 == entries[b].0);
            }
            lemma_index_of_key_is(after, key, i);
        },
        None => {
            assert forall|a: int, b: int| 0 <= a < b < after.len() implies (#[trigger] after[a]).0
                != (#[trigger] after[b]).0 by {
                if b < entries.len() {
                    assert(after[a] == entries[a]);
                    assert(after[b] == entries[b]);
                } else {
                    assert(after[a] == entries[a]);
                }
            }
            lemma_index_of_key_is(after, key, entries.len() as int);
        },
    }
    assert forall|other: Seq<char>| other != key implies #[trigger] lookup(after, other) == lookup(
        entries,
        other,
    ) by {
        lemma_index_of_key(entries, other);
        match index_of_key(entries, other) {
            Some(k) => {
                assert(after[k] == entries[k]);
                assert forall|j: int| 0 <= j < k implies (#[trigger] after[j]).0 != other by {
                    if after[j].0 == other {
                        assert(entries[j].0 != other);
                    }
                }
                lemma_index_of_key_is(after, other, k);
            },
            None => {
                assert forall|j: int| 0 <= j < after.len() implies (#[trigger] after[j]).0
                    != other by {
                    if j < entries.len() && after[j].0 == other {
                        assert(entries[j].0 != other);
                    }
                }
                lemma_index_of_key_none(after, other);
            },
        }
    }
}

impl JsonNumber {
    pub open spec fn model(&self) -> JsonNumberModel {
        match self {
            JsonNumber::Integer(i) => JsonNumberModel::Integer(*i),
            JsonNumber::Unsigned(u) => JsonNumberModel::Unsigned(*u),
            JsonNumber::Double(t) => JsonNumberModel::Double(t@),
        }
    }

    pub fn clone_number(&self) -> (r: JsonNumber)
        ensures
            r.model() == self.model(),
    {
        match self {
            JsonNumber::Integer(i) => JsonNumber::Integer(*i),
            JsonNumber::Unsigned(u) => JsonNumber::Unsigned(*u),
            JsonNumber::Double(t) => JsonNumber::Double(t.clone()),
        }
    }
}

impl JsonNumberModel {
    /// An unsigned number is one that the signed range cannot hold.
    pub open spec fn wf(self) -> bool {
        self matches JsonNumberModel::Unsigned(u) ==> u > i64::MAX
    }
}

impl JsonValue {
    /// The value as contracts see it.
    pub open spec fn model(&self) -> JsonModel
        decreases self,
    {
        match self {
            JsonValue::Null => JsonModel::Null,
            JsonValue::Bool(b) => JsonModel::Bool(*b),
            JsonValue::Number(n) => JsonModel::Number(n.model()),
            JsonValue::String(s) => JsonModel::String(s@),
            JsonValue::Array(items) => JsonModel::Array(
                Seq::new(
                    items@.len(),
                    |i: int|
                        if 0 <= i < items@.len() {
                            items@[i].model()
                        } else {
                            JsonModel::Null
                        },
                ),
            ),
            JsonValue::Object(fields) => JsonModel::Object(
                Seq::new(
                    fields@.len(),
                    |i: int|
                        if 0 <= i < fields@.len() {
                            (fields@[i].0@, fields@[i].1.model())
                        } else {
                            (Seq::empty(), JsonModel::Null)
                        },
                ),
            ),
        }
    }
}

impl View for JsonValue {
    type V = JsonModel;

    open spec fn view(&self) -> JsonModel {
        self.model()
    }
}

/// The model of a list of entries.
pub open spec fn entries_view(fields: Seq<(String, JsonValue)>) -> Seq<(Seq<char>, JsonModel)> {
    Seq::new(fields.len(), |i: int| (fields[i].0@, fields[i].1@))
}

/// The model of a list of values.
pub open spec fn values_view(items: Seq<JsonValue>) -> Seq<JsonModel> {
    Seq::new(items.len(), |i: int| items[i]@)
}

pub proof fn lemma_view_array(items: Vec<JsonValue>)
    ensures
        JsonValue::Array(items)@ == JsonModel::Array(values_view(items@)),
{
    assert(JsonValue::Array(items)@->Array_0 =~= values_view(items@));
}

pub proof fn lemma_view_object(fields: Vec<(String, JsonValue)>)
    ensures
        JsonValue::Object(fields)@ == JsonModel::Object(entries_view(fields@)),
{
    assert(JsonValue::Object(fields)@->Object_0 =~= entries_view(fields@));
}

impl JsonModel {
    /// Well-formed: no object holds a key twice, and every number is in its own variant.
    pub open spec fn wf(self) -> bool
        decreases self,
    {
        match self {
            JsonModel::Number(n) => n.wf(),
            JsonModel::Array(items) => forall|i: int|
                0 <= i < items.len() ==> (#[trigger] items[i]).wf(),
            JsonModel::Object(fields) => keys_unique(fields) && forall|i: int|
                0 <= i < fields.len() ==> (#[trigger] fields[i]).1.wf(),
            _ => true,
        }
    }

    /// The member of an object under `key`; `None` for a missing key and for a
    /// value that is no object.
    pub open spec fn member(self, key: Seq<char>) -> Option<JsonModel> {
        match self {
            JsonModel::Object(fields) => lookup(fields, key),
            _ => None,
        }
    }

    /// The text of a string value.
    pub open spec fn text(self) -> Option<Seq<char>> {
        match self {
            JsonModel::String(s) => Some(s),
            _ => None,
        }
    }

    /// The items of an array value.
    pub open spec fn items(self) -> Option<Seq<JsonModel>> {
        match self {
            JsonModel::Array(items) => Some(items),
            _ => None,
        }
    }

    /// The entries of an object value.
    pub open spec fn entries(self) -> Option<Seq<(Seq<char>, JsonModel)>> {
        match self {
            JsonModel::Object(fields) => Some(fields),
            _ => None,
        }
    }
}

/// Index of the first entry of `entries` under `key`.
pub fn find_key<T>(entries: &Vec<(String, T)>, key: &str) -> (r: Option<usize>)
    ensures
        match r {
            Some(i) => i < entries.len() && entries@[i as int].0@ == key@ && forall|j: int|
                0 <= j < i ==> (#[trigger] entries@[j]).0@ != key@,
            None => forall|j: int| 0 <= j < entries.len() ==> (#[trigger] entries@[j]).0@ != key@,
        },
{
    let mut i: usize = 0;
    while i < entries.len()
        invariant
            i <= entries.len(),
            forall|j: int| 0 <= j < i ==> (#[trigger] entries@[j]).0@ != key@,
        decreases entries.len() - i,
    {
        if str_eq(entries[i].0.as_str(), key) {
            return Some(i);
        }
        i += 1;
    }
    None
}

impl JsonValue {
    /// The member of an object under `key`.
    pub fn get(&self, key: &str) -> (r: Option<&JsonValue>)
        ensures
            r is Some <==> self@.member(key@) is Some,
            r matches Some(v) ==> self@.member(key@) == Some(v@),
    {
        match self {
            JsonValue::Object(fields) => {
                proof {
                    lemma_view_object(*fields);
                    lemma_index_of_key(entries_view(fields@), key@);
                }
                match find_key(fields, key) {
                    Some(i) => {
                        proof {
                            assert(entries_view(fields@)[i as int].0 == key@);
                            assert forall|j: int| 0 <= j < i implies (#[trigger] entries_view(
                                fields@,
                            )[j]).0 != key@ by {
                                assert(fields@[j].0@ != key@);
                            }
                            lemma_index_of_key_is(entries_view(fields@), key@, i as int);
                        }
                        Some(&fields[i].1)
                    },
                    None => {
                        proof {
                            assert forall|j: int|
                                0 <= j < entries_view(fields@).len() implies (
                            #[trigger] entries_view(fields@)[j]).0 != key@ by {
                                assert(fields@[j].0@ != key@);
                            }
                            lemma_index_of_key_none(entries_view(fields@), key@);
                        }
                        None
                    },
                }
            },
            _ => None,
        }
    }

    /// The text of a string value.
    pub fn as_str(&self) -> (r: Option<&str>)
        ensures
            r is Some <==> self@.text() is Some,
            r matches Some(s) ==> self@.text() == Some(s@),
    {
        match self {
            JsonValue::String(s) => Some(s.as_str()),
            _ => None,
        }
    }

    /// The items of an array value.
    pub fn as_array(&self) -> (r: Option<&Vec<JsonValue>>)
        ensures
            r is Some <==> self@.items() is Some,
            r matches Some(items) ==> self@.items() == Some(values_view(items@)),
    {
        match self {
            JsonValue::Array(items) => {
                proof {
                    lemma_view_array(*items);
                }
                Some(items)
            },
            _ => None,
        }
    }

    /// The entries of an object value.
    pub fn as_object(&self) -> (r: Option<&Vec<(String, JsonValue)>>)
        ensures
            r is Some <==> self@.entries() is Some,
            r matches Some(fields) ==> self@.entries() == Some(entries_view(fields@)),
    {
        match self {
            JsonValue::Object(fields) => {
                proof {
                    lemma_view_object(*fields);
                }
                Some(fields)
            },
            _ => None,
        }
    }

    /// A deep copy.
    pub fn clone_value(&self) -> (r: JsonValue)
        ensures
            r@ == self@,
        decreases self,
    {
        match self {
            JsonValue::Null => JsonValue::Null,
            JsonValue::Bool(b) => JsonValue::Bool(*b),
            JsonValue::Number(n) => JsonValue::Number(n.clone_number()),
            JsonValue::String(s) => JsonValue::String(s.clone()),
            JsonValue::Array(items) => {
                let mut out: Vec<JsonValue> = Vec::new();
                let mut i: usize = 0;
                while i < items.len()
                    invariant
                        i <= items.len(),
                        out@.len() == i,
                        *self == JsonValue::Array(*items),
                        forall|j: int| 0 <= j < i ==> (#[trigger] out@[j])@ == items@[j]@,
                    decreases items.len() - i,
                {
                    assert(decreases_to!(*self => self->Array_0[i as int]));
                    out.push(items[i].clone_value());
                    i += 1;
                }
                proof {
                    lemma_view_array(out);
                    lemma_view_array(*items);
                    assert(values_view(out@) =~= values_view(items@));
                }
                JsonValue::Array(out)
            },
            JsonValue::Object(fields) => {
                let mut out: Vec<(String, JsonValue)> = Vec::new();
                let mut i: usize = 0;
                while i < fields.len()
                    invariant
                        i <= fields.len(),
                        out@.len() == i,
                        *self == JsonValue::Object(*fields),
                        forall|j: int|
                            0 <= j < i ==> (#[trigger] out@[j]).0@ == fields@[j].0@ && out@[j].1@
                                == fields@[j].1@,
                    decreases fields.len() - i,
                {
                    assert(decreases_to!(*self => self->Object_0[i as int].1));
                    out.push((fields[i].0.clone(), fields[i].1.clone_value()));
                    i += 1;
                }
                proof {
                    lemma_view_object(out);
                    lemma_view_object(*fields);
                    assert(entries_view(out@) =~= entries_view(fields@));
                }
                JsonValue::Object(out)
            },
        }
    }
}

/// Sets `key` to `value`: in place where the key is present, else at the end.
pub fn set_entry(fields: &mut Vec<(String, JsonValue)>, key: String, value: JsonValue)
    ensures
        entries_view(final(fields)@) == upsert(entries_view(old(fields)@), key@, value@),
{
    let ghost before = entries_view(fields@);
    proof {
        lemma_index_of_key(before, key@);
    }
    match find_key(fields, key.as_str()) {
        Some(i) => {
            proof {
                assert forall|j: int| 0 <= j < i implies (#[trigger] before[j]).0 != key@ by {
                    assert(fields@[j].0@ != key@);
                }
                assert(before[i as int].0 == key@);
                lemma_index_of_key_is(before, key@, i as int);
            }
            fields.set(i, (key, value));
            assert(entries_view(fields@) =~= upsert(before, key@, value@));
        },
        None => {
            proof {
                assert forall|j: int| 0 <= j < before.len() implies (#[trigger] before[j]).0
                    != key@ by {
                    assert(fields@[j].0@ != key@);
                }
                lemma_index_of_key_none(before, key@);
            }
            fields.push((key, value));
            assert(entries_view(fields@) =~= upsert(before, key@, value@));
        },
    }
}

/// The object with the given entries.
pub fn object_of(entries: Vec<(String, JsonValue)>) -> (r: JsonValue)
    ensures
        r@ == JsonModel::Object(entries_view(entries@)),
{
    proof {
        lemma_view_object(entries);
    }
    JsonValue::Object(entries)
}

/// The array with the given items.
pub fn array_of(items: Vec<JsonValue>) -> (r: JsonValue)
    ensures
        r@ == JsonModel::Array(values_view(items@)),
{
    proof {
        lemma_view_array(items);
    }
    JsonValue::Array(items)
}

/// Adds the member `key` at the end of `entries`.
pub fn push_member(entries: &mut Vec<(String, JsonValue)>, key: &str, value: JsonValue)
    ensures
        entries_view(final(entries)@) == entries_view(old(entries)@).push((key@, value@)),
{
    entries.push((String::from_str(key), value));
    assert(entries_view(entries@) =~= entries_view(old(entries)@).push((key@, value@)));
}

/// A text that may be absent, as JSON: `null` where there is none.
pub open spec fn optional_text_json(s: Option<String>) -> JsonModel {
    match s {
        Some(t) => JsonModel::String(t@),
        None => JsonModel::Null,
    }
}

/// A value that may be absent, as JSON: `null` where there is none.
pub open spec fn optional_value_json(v: Option<JsonValue>) -> JsonModel {
    match v {
        Some(x) => x@,
        None => JsonModel::Null,
    }
}

/// A text as a JSON value, `null` where there is none.
pub fn text_or_null(s: &Option<String>) -> (r: JsonValue)
    ensures
        r@ == optional_text_json(*s),
{
    match s {
        Some(t) => JsonValue::String(t.clone()),
        None => JsonValue::Null,
    }
}

/// A value as it is, `null` where there is none.
pub fn value_or_null(v: &Option<JsonValue>) -> (r: JsonValue)
    ensures
        r@ == optional_value_json(*v),
{
    match v {
        Some(x) => x.clone_value(),
        None => JsonValue::Null,
    }
}

/// A count as a JSON number.
pub fn count_json(n: usize) -> (r: JsonValue)
    ensures
        r@ == count_model(n),
{
    if n as u64 <= 9223372036854775807u64 {
        JsonValue::Number(JsonNumber::Integer(n as i64))
    } else {
        JsonValue::Number(JsonNumber::Unsigned(n as u64))
    }
}

/// A count as a JSON number.
pub open spec fn count_model(n: usize) -> JsonModel {
    if n <= i64::MAX {
        JsonModel::Number(JsonNumberModel::Integer(n as i64))
    } else {
        JsonModel::Number(JsonNumberModel::Unsigned(n as u64))
    }
}

/// What a JSON text denotes: `None` where the text is no JSON document.
pub uninterp spec fn json_of_text(text: Seq<char>) -> Option<JsonModel>;

/// The compact JSON text of a value: `None` where a double's text is no JSON number.
pub uninterp spec fn text_of_json(value: JsonModel) -> Option<Seq<char>>;

/// The indented JSON text of a value: `None` where a double's text is no JSON number.
pub uninterp spec fn pretty_text_of_json(value: JsonModel) -> Option<Seq<char>>;

#[verifier::external_type_specification]
#[verifier::external_body]
pub struct ExSerdeValue(serde_json::Value);

#[verifier::external_type_specification]
#[verifier::external_body]
pub struct ExSerdeNumber(serde_json::Number);

/// Carries a `serde_json::Number` over, variant by variant: `as_i64` where it
/// answers, else `as_u64`, else the number's own text.
#[verifier::external_body]
fn number_from_serde(n: &serde_json::Number) -> JsonNumber {
    match (n.as_i64(), n.as_u64()) {
        (Some(i), _) => JsonNumber::Integer(i),
        (None, Some(u)) => JsonNumber::Unsigned(u),
        (None, None) => JsonNumber::Double(n.to_string()),
    }
}

/// Carries a `serde_json::Value` over, variant by variant.
#[verifier::external_body]
fn value_from_serde(v: &serde_json::Value) -> JsonValue {
    match v {
        serde_json::Value::Null => JsonValue::Null,
        serde_json::Value::Bool(b) => JsonValue::Bool(*b),
        serde_json::Value::Number(n) => JsonValue::Number(number_from_serde(n)),
        serde_json::Value::String(s) => JsonValue::String(s.clone()),
        serde_json::Value::Array(a) => JsonValue::Array(a.iter().map(value_from_serde).collect()),
        serde_json::Value::Object(m) => JsonValue::Object(
            m.iter().map(|(k, x)| (k.clone(), value_from_serde(x))).collect(),
        ),
    }
}

/// Carries a number over to `serde_json::Number`; a double goes through
/// `Number::from_str`, which refuses a text that is no JSON number.
#[verifier::external_body]
fn number_to_serde(n: &JsonNumber) -> Option<serde_json::Number> {
    match n {
        JsonNumber::Integer(i) => Some(serde_json::Number::from(*i)),
        JsonNumber::Unsigned(u) => Some(serde_json::Number::from(*u)),
        JsonNumber::Double(t) => t.parse::<serde_json::Number>().ok(),
    }
}

/// Carries one entry of an object over, for `value_to_serde`.
#[verifier::external_body]
fn entry_to_serde(entry: &(String, JsonValue)) -> Option<(String, serde_json::Value)> {
    Some((entry.0.clone(), value_to_serde(&entry.1)?))
}

/// Carries a value over to `serde_json::Value`, variant by variant; `None`
/// where a number in it could not be carried over.
#[verifier::external_body]
fn value_to_serde(v: &JsonValue) -> Option<serde_json::Value> {
    Some(match v {
        JsonValue::Null => serde_json::Value::Null,
        JsonValue::Bool(b) => serde_json::Value::Bool(*b),
        JsonValue::Number(n) => serde_json::Value::Number(number_to_serde(n)?),
        JsonValue::String(s) => serde_json::Value::String(s.clone()),
        JsonValue::Array(a) => serde_json::Value::Array(a.iter().map(value_to_serde).collect::<Option<_>>()?),
        JsonValue::Object(m) => serde_json::Value::Object(m.iter().map(entry_to_serde).collect::<Option<_>>()?),
    })
}

/// `serde_json::from_str` into a `serde_json::Value`: the value that the text
/// denotes, or the parser's message. A parsed object holds no key twice, and a
/// parsed integer stands in the narrowest variant that holds it.
#[verifier::external_body]
fn serde_parse(text: &str) -> (r: Result<JsonValue, String>)
    ensures
        r is Ok <==> json_of_text(text@) is Some,
        r matches Ok(v) ==> json_of_text(text@) == Some(v@) && v@.wf(),
{
    serde_json::from_str::<serde_json::Value>(text).map(|v| value_from_serde(&v)).map_err(
        |e| e.to_string(),
    )
}

/// `serde_json::to_string` on the value: its compact JSON text.
#[verifier::external_body]
fn serde_to_string(v: &JsonValue) -> (r: Option<String>)
    ensures
        r is Some <==> text_of_json(v@) is Some,
        r matches Some(s) ==> text_of_json(v@) == Some(s@),
{
    value_to_serde(v).and_then(|x| serde_json::to_string(&x).ok())
}

/// `serde_json::to_string_pretty` on the value: its indented JSON text.
#[verifier::external_body]
fn serde_to_string_pretty(v: &JsonValue) -> (r: Option<String>)
    ensures
        r is Some <==> pretty_text_of_json(v@) is Some,
        r matches Some(s) ==> pretty_text_of_json(v@) == Some(s@),
{
    value_to_serde(v).and_then(|x| serde_json::to_string_pretty(&x).ok())
}

/// Reads a JSON text. Fails with `SerdeError`, carrying the parser's message,
/// exactly where the text is no JSON document.
pub fn parse_json(text: &str) -> (r: Result<JsonValue, FirebaseError>)
    ensures
        r is Ok <==> json_of_text(text@) is Some,
        r matches Ok(v) ==> json_of_text(text@) == Some(v@) && v@.wf(),
        r matches Err(e) ==> e is SerdeError,
{
    match serde_parse(text) {
        Ok(v) => Ok(v),
        Err(message) => Err(FirebaseError::SerdeError(message)),
    }
}

/// The compact JSON text of a value.
pub fn to_json_text(v: &JsonValue) -> (r: Option<String>)
    ensures
        r is Some <==> text_of_json(v@) is Some,
        r matches Some(s) ==> text_of_json(v@) == Some(s@),
{
    serde_to_string(v)
}

/// The indented JSON text of a value.
pub fn to_json_text_pretty(v: &JsonValue) -> (r: Option<String>)
    ensures
        r is Some <==> pretty_text_of_json(v@) is Some,
        r matches Some(s) ==> pretty_text_of_json(v@) == Some(s@),
{
    serde_to_string_pretty(v)
}


/// What a YAML text denotes, read as a JSON value: `None` where the text is
/// no YAML document, or one that JSON cannot hold.
pub uninterp spec fn yaml_of_text(text: Seq<char>) -> Option<JsonModel>;

/// `serde_yaml::from_str` into a `serde_json::Value`: the value that the
/// text denotes, or the parser's message. As with JSON, an object that was
/// read holds no key twice.
#[verifier::external_body]
fn serde_parse_yaml(text: &str) -> (r: Result<JsonValue, String>)
    ensures
        r is Ok <==> yaml_of_text(text@) is Some,
        r matches Ok(v) ==> yaml_of_text(text@) == Some(v@) && v@.wf(),
{
    serde_yaml::from_str::<serde_json::Value>(text).map(|v| value_from_serde(&v)).map_err(
        |e| e.to_string(),
    )
}

/// Reads a YAML text as a JSON value. Fails with `SerdeError`, carrying the
/// parser's message, exactly where the text denotes none.
pub fn parse_yaml(text: &str) -> (r: Result<JsonValue, FirebaseError>)
    ensures
        r is Ok <==> yaml_of_text(text@) is Some,
        r matches Ok(v) ==> yaml_of_text(text@) == Some(v@) && v@.wf(),
        r matches Err(e) ==> e is SerdeError,
{
    match serde_parse_yaml(text) {
        Ok(v) => Ok(v),
        Err(message) => Err(FirebaseError::SerdeError(message)),
    }
}

} // verus!
