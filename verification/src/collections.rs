//! What a collection looks like from a sample of its documents: which fields
//! occur, of what kinds, how often, and with what values.
//!
//! The order of the fields in a description is the order in which they were
//! first seen in the sample; a field's kinds and sample values keep the order
//! in which they were first seen too.

use vstd::prelude::*;
use crate::error::{not_found, ErrorKind, FirebaseError};
use crate::firebase::{
    collection_url, is_success, keyed, store_failure, FirebaseClient, HttpMethod, HttpRequest,
    HttpResponse, RequestModel,
};
use crate::json::{
    entries_view, find_key, has_key, index_of_key, json_of_text, keys_unique, lemma_index_of_key,
    lemma_index_of_key_is, lemma_index_of_key_none, lemma_upsert, lemma_view_array,
    lemma_view_object, lookup, parse_json, text_of_json, to_json_text, upsert, values_view,
    JsonModel, JsonNumber, JsonNumberModel, JsonValue,
};
use crate::text::{
    concat2, concat3, decimal, format_u64, join, joined, parse_i64, parse_i64_spec, str_eq, texts,
};
use crate::wire::{member_entries, member_items, member_text};

verus! {

#[derive(Debug)]
pub struct CollectionInfo {
    pub name: String,
    pub document_count: usize,
    pub estimated_size: String,
    pub last_modified: Option<String>,
}

/// A field that the store or the client fills in, so that a form need not ask for it.
#[derive(Debug, Clone, Copy, PartialEq, Eq, Structural)]
pub enum AutoFieldType {
    CreatedAt,
    UpdatedAt,
    RandomId,
    Sequence,
    UserId,
}

#[derive(Debug)]
pub struct FieldInfo {
    pub name: String,
    /// The kind of the field's values, or `Mixed(..)` with the kinds that were seen.
    pub field_type: String,
    /// Whether every document of the sample has the field.
    pub is_required: bool,
    /// Up to five values of the field, as text.
    pub sample_values: Vec<String>,
    /// In how many documents of the sample the field occurs.
    pub frequency: usize,
    pub unique_values: usize,
    pub auto_field: Option<AutoFieldType>,
}

#[derive(Debug)]
pub struct CollectionSchema {
    pub collection_name: String,
    pub total_documents: usize,
    pub fields: Vec<FieldInfo>,
    /// The first document of the sample, as a dynamic object.
    pub sample_document: Option<JsonValue>,
}

/// What was seen of one field so far.
#[derive(Debug)]
pub struct FieldStats {
    pub frequency: usize,
    pub field_types: Vec<String>,
    pub sample_values: Vec<String>,
}

pub ghost struct StatsModel {
    pub frequency: nat,
    pub types: Seq<Seq<char>>,
    pub samples: Seq<Seq<char>>,
}

impl View for FieldStats {
    type V = StatsModel;

    open spec fn view(&self) -> StatsModel {
        StatsModel {
            frequency: self.frequency as nat,
            types: texts(self.field_types@),
            samples: texts(self.sample_values@),
        }
    }
}

impl FieldStats {
    pub fn new() -> (r: Self)
        ensures
            r@ == no_stats(),
    {
        let r = Self { frequency: 0, field_types: Vec::new(), sample_values: Vec::new() };
        assert(texts(r.field_types@) =~= Seq::empty());
        assert(texts(r.sample_values@) =~= Seq::empty());
        r
    }
}

/// The statistics of the fields, by name, in the order in which the names came.
pub type StatsTable = Seq<(Seq<char>, StatsModel)>;

/// Nothing seen yet.
pub open spec fn no_stats() -> StatsModel {
    StatsModel { frequency: 0, types: Seq::empty(), samples: Seq::empty() }
}

/// `items` with `x` at the end, unless it is there already.
pub open spec fn with_distinct(items: Seq<Seq<char>>, x: Seq<char>) -> Seq<Seq<char>> {
    if items.contains(x) {
        items
    } else {
        items.push(x)
    }
}

/// How many sample values are kept for a field.
pub open spec fn sample_cap() -> nat {
    5
}

/// The statistics after one more occurrence, of the kind `kind` and with the
/// sample text `sample`: the sample is kept only while fewer than five are.
pub open spec fn seen_once_more(s: StatsModel, kind: Seq<char>, sample: Seq<char>) -> StatsModel {
    StatsModel {
        frequency: s.frequency + 1,
        types: with_distinct(s.types, kind),
        samples: if s.samples.len() < sample_cap() {
            with_distinct(s.samples, sample)
        } else {
            s.samples
        },
    }
}

/// The table after one more occurrence of the field `name`.
pub open spec fn observe(table: StatsTable, name: Seq<char>, kind: Seq<char>, sample: Seq<char>) -> StatsTable {
    let before = match lookup(table, name) {
        Some(s) => s,
        None => no_stats(),
    };
    upsert(table, name, seen_once_more(before, kind, sample))
}

/// The text of a JSON value; empty where it has none.
pub open spec fn json_text_or_empty(v: JsonModel) -> Seq<char> {
    match text_of_json(v) {
        Some(t) => t,
        None => Seq::empty(),
    }
}

/// The kind of a value in the store's JSON shape, and a text that shows the value.
pub open spec fn analysis(value: JsonModel) -> (Seq<char>, Seq<char>) {
    if member_text(value, "stringValue"@) is Some {
        ("string"@, "\""@ + member_text(value, "stringValue"@)->0 + "\""@)
    } else if member_text(value, "integerValue"@) is Some {
        ("integer"@, member_text(value, "integerValue"@)->0)
    } else if value.member("doubleValue"@) is Some {
        ("double"@, json_text_or_empty(value.member("doubleValue"@)->0))
    } else if value.member("booleanValue"@) is Some {
        ("boolean"@, json_text_or_empty(value.member("booleanValue"@)->0))
    } else if value.member("timestampValue"@) is Some {
        ("timestamp"@, "2024-01-01T00:00:00Z"@)
    } else if value.member("arrayValue"@) is Some {
        ("array"@, "[...]"@)
    } else if value.member("mapValue"@) is Some {
        ("map"@, "{...}"@)
    } else if value.member("nullValue"@) is Some {
        ("null"@, "null"@)
    } else {
        ("unknown"@, "?"@)
    }
}

/// The fields of a document in the store's JSON shape: none where it has no
/// object under `fields`.
pub open spec fn document_fields(doc: JsonModel) -> Seq<(Seq<char>, JsonModel)> {
    member_entries(doc, "fields"@)
}

/// The table after the first `upto` fields of one document. A name that
/// occurs twice in the document counts where it occurs first.
pub open spec fn observe_fields(
    table: StatsTable,
    fields: Seq<(Seq<char>, JsonModel)>,
    upto: int,
) -> StatsTable
    decreases upto,
{
    if upto <= 0 {
        table
    } else {
        let before = observe_fields(table, fields, upto - 1);
        let field = fields[upto - 1];
        if index_of_key(fields, field.0) == Some(upto - 1) {
            observe(before, field.0, analysis(field.1).0, analysis(field.1).1)
        } else {
            before
        }
    }
}

/// The table after all the documents of a sample.
pub open spec fn observe_documents(docs: Seq<JsonModel>) -> StatsTable
    decreases docs.len(),
{
    if docs.len() == 0 {
        Seq::empty()
    } else {
        let fields = document_fields(docs.last());
        observe_fields(observe_documents(docs.drop_last()), fields, fields.len() as int)
    }
}

/// How often the table has seen the field `name`.
pub open spec fn frequency_of(table: StatsTable, name: Seq<char>) -> nat {
    match lookup(table, name) {
        Some(s) => s.frequency,
        None => 0,
    }
}

/// In how many of the documents the field `name` occurs.
pub open spec fn documents_with(docs: Seq<JsonModel>, name: Seq<char>) -> nat
    decreases docs.len(),
{
    if docs.len() == 0 {
        0
    } else {
        documents_with(docs.drop_last(), name) + if has_key(document_fields(docs.last()), name) {
            1nat
        } else {
            0nat
        }
    }
}

pub proof fn lemma_documents_with_bound(docs: Seq<JsonModel>, name: Seq<char>)
    ensures
        documents_with(docs, name) <= docs.len(),
    decreases docs.len(),
{
    if docs.len() > 0 {
        lemma_documents_with_bound(docs.drop_last(), name);
    }
}

pub proof fn lemma_observe(
    table: StatsTable,
    name: Seq<char>,
    kind: Seq<char>,
    sample: Seq<char>,
    other: Seq<char>,
)
    requires
        keys_unique(table),
    ensures
        keys_unique(observe(table, name, kind, sample)),
        frequency_of(observe(table, name, kind, sample), other) == frequency_of(table, other) + if other
            == name {
            1nat
        } else {
            0nat
        },
{
    let before = match lookup(table, name) {
        Some(s) => s,
        None => no_stats(),
    };
    lemma_upsert(table, name, seen_once_more(before, kind, sample));
}

pub proof fn lemma_observe_fields(
    table: StatsTable,
    fields: Seq<(Seq<char>, JsonModel)>,
    upto: int,
    name: Seq<char>,
)
    requires
        keys_unique(table),
        0 <= upto <= fields.len(),
    ensures
        keys_unique(observe_fields(table, fields, upto)),
        frequency_of(observe_fields(table, fields, upto), name) == frequency_of(table, name) + if (
        index_of_key(fields, name) matches Some(j) && j < upto) {
            1nat
        } else {
            0nat
        },
    decreases upto,
{
    lemma_index_of_key(fields, name);
    if upto > 0 {
        lemma_observe_fields(table, fields, upto - 1, name);
        let before = observe_fields(table, fields, upto - 1);
        let field = fields[upto - 1];
        lemma_index_of_key(fields, name);
        lemma_index_of_key(fields, field.0);
        let first = index_of_key(fields, field.0) == Some(upto - 1);
        if first {
            lemma_observe(before, field.0, analysis(field.1).0, analysis(field.1).1, name);
        }
        match index_of_key(fields, name) {
            Some(j) => {
                assert(fields[j].0 == name);
                if name == field.0 {
                    assert(index_of_key(fields, field.0) == Some(j));
                    if j == upto - 1 {
                        assert(first);
                    } else {
                        assert(!first);
                    }
                } else {
                    assert(j != upto - 1);
                }
            },
            None => {
                assert(fields[upto - 1].0 != name);
            },
        }
    }
}

/// The frequency that the table holds for a field is the number of documents
/// of the sample in which the field occurs.
pub proof fn lemma_frequency_counts_documents(docs: Seq<JsonModel>, name: Seq<char>)
    ensures
        keys_unique(observe_documents(docs)),
        frequency_of(observe_documents(docs), name) == documents_with(docs, name),
    decreases docs.len(),
{
    if docs.len() > 0 {
        lemma_frequency_counts_documents(docs.drop_last(), name);
        let fields = document_fields(docs.last());
        lemma_observe_fields(
            observe_documents(docs.drop_last()),
            fields,
            fields.len() as int,
            name,
        );
        lemma_index_of_key(fields, name);
    }
}


/// The kind of a value in the store's JSON shape, and a text that shows the value.
pub fn analyze_firestore_field(field_value: &JsonValue) -> (r: (String, String))
    ensures
        (r.0@, r.1@) == analysis(field_value@),
{
    if let Some(JsonValue::String(s)) = field_value.get("stringValue") {
        return (String::from_str("string"), concat3("\"", s.as_str(), "\""));
    }
    if let Some(JsonValue::String(s)) = field_value.get("integerValue") {
        return (String::from_str("integer"), s.clone());
    }
    if let Some(d) = field_value.get("doubleValue") {
        let text = match to_json_text(d) {
            Some(t) => t,
            None => String::new(),
        };
        return (String::from_str("double"), text);
    }
    if let Some(b) = field_value.get("booleanValue") {
        let text = match to_json_text(b) {
            Some(t) => t,
            None => String::new(),
        };
        return (String::from_str("boolean"), text);
    }
    if field_value.get("timestampValue").is_some() {
        return (String::from_str("timestamp"), String::from_str("2024-01-01T00:00:00Z"));
    }
    if field_value.get("arrayValue").is_some() {
        return (String::from_str("array"), String::from_str("[...]"));
    }
    if field_value.get("mapValue").is_some() {
        return (String::from_str("map"), String::from_str("{...}"));
    }
    if field_value.get("nullValue").is_some() {
        return (String::from_str("null"), String::from_str("null"));
    }
    (String::from_str("unknown"), String::from_str("?"))
}

/// The model of a table of statistics.
pub open spec fn table_view(table: Seq<(String, FieldStats)>) -> StatsTable {
    Seq::new(table.len(), |i: int| (table[i].0@, table[i].1@))
}

fn contains_text(items: &Vec<String>, x: &str) -> (r: bool)
    ensures
        r == texts(items@).contains(x@),
{
    let mut i: usize = 0;
    while i < items.len()
        invariant
            i <= items.len(),
            forall|j: int| 0 <= j < i ==> texts(items@)[j] != x@,
        decreases items.len() - i,
    {
        if str_eq(items[i].as_str(), x) {
            assert(texts(items@)[i as int] == x@);
            return true;
        }
        i += 1;
    }
    false
}

fn push_distinct(items: &mut Vec<String>, x: String)
    ensures
        texts(final(items)@) == with_distinct(texts(old(items)@), x@),
{
    if !contains_text(items, x.as_str()) {
        items.push(x);
        assert(texts(items@) =~= texts(old(items)@).push(x@));
    }
}

/// Records one more occurrence of the field `name` in the table.
fn observe_field(table: &mut Vec<(String, FieldStats)>, name: &str, kind: String, sample: String)
    requires
        frequency_of(table_view(old(table)@), name@) < usize::MAX,
    ensures
        table_view(final(table)@) == observe(table_view(old(table)@), name@, kind@, sample@),
{
    let ghost before = table_view(table@);
    proof {
        lemma_index_of_key(before, name@);
    }
    match find_key(table, name) {
        Some(i) => {
            proof {
                assert(before[i as int].0 == name@);
                assert forall|j: int| 0 <= j < i implies (#[trigger] before[j]).0 != name@ by {
                    assert(table@[j].0@ != name@);
                }
                lemma_index_of_key_is(before, name@, i as int);
            }
            let (key, mut stats) = table.remove(i);
            assert(stats@ == before[i as int].1);
            stats.frequency = stats.frequency + 1;
            push_distinct(&mut stats.field_types, kind);
            if stats.sample_values.len() < 5 {
                push_distinct(&mut stats.sample_values, sample);
            }
            table.insert(i, (key, stats));
            assert(table_view(table@) =~= observe(before, name@, kind@, sample@));
        },
        None => {
            proof {
                assert forall|j: int| 0 <= j < before.len() implies (#[trigger] before[j]).0
                    != name@ by {
                    assert(table@[j].0@ != name@);
                }
                lemma_index_of_key_none(before, name@);
            }
            let mut stats = FieldStats::new();
            stats.frequency = 1;
            push_distinct(&mut stats.field_types, kind);
            push_distinct(&mut stats.sample_values, sample);
            table.push((String::from_str(name), stats));
            assert(table_view(table@) =~= observe(before, name@, kind@, sample@));
        },
    }
}

/// The marker for a field that is filled in without asking: the two time
/// stamps that every write sets, by their names.
pub open spec fn auto_field_of(name: Seq<char>) -> Option<AutoFieldType> {
    if name == "created_at"@ {
        Some(AutoFieldType::CreatedAt)
    } else if name == "updated_at"@ {
        Some(AutoFieldType::UpdatedAt)
    } else {
        None
    }
}

/// The marker for a field that is filled in without asking.
pub fn detect_auto_field(name: &str) -> (r: Option<AutoFieldType>)
    ensures
        r == auto_field_of(name@),
{
    if str_eq(name, "created_at") {
        Some(AutoFieldType::CreatedAt)
    } else if str_eq(name, "updated_at") {
        Some(AutoFieldType::UpdatedAt)
    } else {
        None
    }
}

/// The one kind that was seen, or `Mixed(..)` around the kinds that were seen.
pub open spec fn type_label(types: Seq<Seq<char>>) -> Seq<char> {
    if types.len() == 1 {
        types[0]
    } else {
        "Mixed("@ + joined(types, ", "@) + ")"@
    }
}

/// `info` says of the field `name` what the statistics `s` hold, in a sample
/// of `total` documents: required means that the field is in every document.
pub open spec fn describes(info: FieldInfo, name: Seq<char>, s: StatsModel, total: nat) -> bool {
    &&& info.name@ == name
    &&& info.field_type@ == type_label(s.types)
    &&& info.is_required == (s.frequency == total)
    &&& texts(info.sample_values@) == s.samples
    &&& info.frequency == s.frequency
    &&& info.unique_values == s.samples.len()
    &&& info.auto_field == auto_field_of(name)
}

fn clone_texts(items: &Vec<String>) -> (r: Vec<String>)
    ensures
        texts(r@) == texts(items@),
{
    let mut out: Vec<String> = Vec::new();
    let mut i: usize = 0;
    while i < items.len()
        invariant
            i <= items.len(),
            out@.len() == i,
            forall|j: int| 0 <= j < i ==> (#[trigger] out@[j])@ == items@[j]@,
        decreases items.len() - i,
    {
        out.push(items[i].clone());
        i += 1;
    }
    assert(texts(out@) =~= texts(items@));
    out
}

fn field_info(name: &str, stats: &FieldStats, total: usize) -> (r: FieldInfo)
    ensures
        describes(r, name@, stats@, total as nat),
{
    let field_type = if stats.field_types.len() == 1 {
        stats.field_types[0].clone()
    } else {
        concat3("Mixed(", join(&stats.field_types, ", ").as_str(), ")")
    };
    let sample_values = clone_texts(&stats.sample_values);
    FieldInfo {
        name: String::from_str(name),
        field_type,
        is_required: stats.frequency == total,
        frequency: stats.frequency,
        unique_values: sample_values.len(),
        sample_values,
        auto_field: detect_auto_field(name),
    }
}

/// The statistics of the fields of a sample of documents in the store's JSON shape.
pub fn collect_stats(documents: &Vec<JsonValue>) -> (r: Vec<(String, FieldStats)>)
    ensures
        table_view(r@) == observe_documents(values_view(documents@)),
{
    let ghost docs = values_view(documents@);
    let mut table: Vec<(String, FieldStats)> = Vec::new();
    let mut i: usize = 0;
    proof {
        assert(docs.take(0) =~= Seq::empty());
        assert(table_view(table@) =~= Seq::empty());
    }
    while i < documents.len()
        invariant
            i <= documents.len(),
            docs == values_view(documents@),
            table_view(table@) == observe_documents(docs.take(i as int)),
        decreases documents.len() - i,
    {
        let ghost done = docs.take(i as int);
        proof {
            let next = docs.take(i + 1);
            assert(next.drop_last() =~= done);
            assert(next.last() == documents@[i as int]@);
        }
        let ghost fields_model = document_fields(documents@[i as int]@);
        let doc = &documents[i];
        proof {
            if let JsonModel::Object(entries) = doc@ {
                lemma_index_of_key(entries, "fields"@);
            }
        }
        match doc.get("fields") {
            Some(JsonValue::Object(fields)) => {
                proof {
                    lemma_view_object(*fields);
                    assert(fields_model == entries_view(fields@));
                }
                let mut j: usize = 0;
                while j < fields.len()
                    invariant
                        j <= fields.len(),
                        i < documents.len(),
                        done == docs.take(i as int),
                        docs.len() == documents@.len(),
                        fields_model == entries_view(fields@),
                        table_view(table@) == observe_fields(
                            observe_documents(done),
                            fields_model,
                            j as int,
                        ),
                    decreases fields.len() - j,
                {
                    let name = fields[j].0.as_str();
                    proof {
                        lemma_index_of_key(fields_model, name@);
                        assert(fields_model[j as int].0 == name@);
                    }
                    let first = match find_key(fields, name) {
                        Some(k) => k == j,
                        None => false,
                    };
                    proof {
                        match index_of_key(fields_model, name@) {
                            Some(k) => {
                                assert(fields_model[k].0 == fields@[k].0@);
                            },
                            None => {},
                        }
                        assert(first == (index_of_key(fields_model, name@) == Some(j as int))) by {
                            match index_of_key(fields_model, name@) {
                                Some(k) => {
                                    assert(fields@[k].0@ == name@);
                                    assert forall|x: int| 0 <= x < k implies (
                                    #[trigger] fields@[x]).0@ != name@ by {
                                        assert(fields_model[x].0 == fields@[x].0@);
                                    }
                                },
                                None => {},
                            }
                        }
                    }
                    if first {
                        let (kind, sample) = analyze_firestore_field(&fields[j].1);
                        proof {
                            lemma_frequency_counts_documents(done, name@);
                            lemma_observe_fields(
                                observe_documents(done),
                                fields_model,
                                j as int,
                                name@,
                            );
                            lemma_documents_with_bound(done, name@);
                        }
                        observe_field(&mut table, name, kind, sample);
                    }
                    j += 1;
                }
            },
            _ => {
                proof {
                    assert(fields_model.len() == 0);
                }
            },
        }
        i += 1;
    }
    proof {
        assert(docs.take(i as int) =~= docs);
    }
    table
}


/// The member of an object under `key`.
pub open spec fn member_at(value: JsonModel, key: Seq<char>) -> Option<JsonModel> {
    match value {
        JsonModel::Object(entries) => match index_of_key(entries, key) {
            Some(k) => if 0 <= k < entries.len() {
                Some(entries[k].1)
            } else {
                None
            },
            None => None,
        },
        _ => None,
    }
}

pub proof fn lemma_member_at(value: JsonModel, key: Seq<char>)
    ensures
        member_at(value, key) == value.member(key),
{
    if let JsonModel::Object(entries) = value {
        lemma_index_of_key(entries, key);
    }
}

/// The number under the member `key`, where there is one.
pub open spec fn member_number(value: JsonModel, key: Seq<char>) -> Option<JsonNumberModel> {
    match value.member(key) {
        Some(JsonModel::Number(n)) => Some(n),
        _ => None,
    }
}

/// The truth value under the member `key`, where there is one.
pub open spec fn member_bool(value: JsonModel, key: Seq<char>) -> Option<bool> {
    match value.member(key) {
        Some(JsonModel::Bool(b)) => Some(b),
        _ => None,
    }
}

/// The items under `arrayValue.values`, where the value holds an array there.
pub open spec fn array_items(value: JsonModel) -> Option<Seq<JsonModel>> {
    match member_at(value, "arrayValue"@) {
        Some(inner) => match member_at(inner, "values"@) {
            Some(JsonModel::Array(items)) => Some(items),
            _ => None,
        },
        None => None,
    }
}

/// The entries under `mapValue.fields`, where the value holds an object there.
pub open spec fn map_entries(value: JsonModel) -> Option<Seq<(Seq<char>, JsonModel)>> {
    match member_at(value, "mapValue"@) {
        Some(inner) => match member_at(inner, "fields"@) {
            Some(JsonModel::Object(entries)) => Some(entries),
            _ => None,
        },
        None => None,
    }
}

/// A value in the store's JSON shape as a plain dynamic value. The kinds are
/// tried in a fixed order: string, integer, double, boolean, timestamp, array,
/// map. An integer whose text is no 64-bit integer stays a text, and what is
/// none of the kinds becomes `Null`.
pub open spec fn plain_json(value: JsonModel) -> JsonModel
    decreases value,
{
    if member_text(value, "stringValue"@) is Some {
        JsonModel::String(member_text(value, "stringValue"@)->0)
    } else if member_text(value, "integerValue"@) is Some {
        let text = member_text(value, "integerValue"@)->0;
        match parse_i64_spec(text) {
            Some(i) => JsonModel::Number(JsonNumberModel::Integer(i)),
            None => JsonModel::String(text),
        }
    } else if member_number(value, "doubleValue"@) is Some {
        JsonModel::Number(member_number(value, "doubleValue"@)->0)
    } else if member_bool(value, "booleanValue"@) is Some {
        JsonModel::Bool(member_bool(value, "booleanValue"@)->0)
    } else if member_text(value, "timestampValue"@) is Some {
        JsonModel::String(member_text(value, "timestampValue"@)->0)
    } else if array_items(value) is Some {
        let items = array_items(value)->0;
        JsonModel::Array(
            Seq::new(
                items.len(),
                |i: int|
                    if 0 <= i < items.len() {
                        plain_json(items[i])
                    } else {
                        JsonModel::Null
                    },
            ),
        )
    } else if map_entries(value) is Some {
        let entries = map_entries(value)->0;
        JsonModel::Object(
            Seq::new(
                entries.len(),
                |i: int|
                    if 0 <= i < entries.len() {
                        (entries[i].0, plain_json(entries[i].1))
                    } else {
                        (Seq::empty(), JsonModel::Null)
                    },
            ),
        )
    } else {
        JsonModel::Null
    }
}

/// A document in the store's JSON shape as a plain dynamic object: `Null`
/// where the document has no object under `fields`.
pub open spec fn plain_document(doc: JsonModel) -> JsonModel {
    match member_at(doc, "fields"@) {
        Some(JsonModel::Object(fields)) => JsonModel::Object(
            Seq::new(fields.len(), |i: int| (fields[i].0, plain_json(fields[i].1))),
        ),
        _ => JsonModel::Null,
    }
}

/// Index of the member `key` of the object `value`.
fn member_position(value: &JsonValue, key: &str) -> (r: Option<usize>)
    ensures
        match r {
            Some(k) => value matches JsonValue::Object(entries) && k < entries@.len()
                && index_of_key(value@->Object_0, key@) == Some(k as int) && member_at(value@, key@)
                == Some(entries@[k as int].1@),
            None => member_at(value@, key@) is None,
        },
{
    match value {
        JsonValue::Object(entries) => {
            let ghost model = entries_view(entries@);
            proof {
                lemma_view_object(*entries);
                lemma_index_of_key(model, key@);
            }
            match find_key(entries, key) {
                Some(k) => {
                    proof {
                        assert(model[k as int].0 == key@);
                        assert forall|j: int| 0 <= j < k implies (#[trigger] model[j]).0
                            != key@ by {
                            assert(entries@[j].0@ != key@);
                        }
                        lemma_index_of_key_is(model, key@, k as int);
                    }
                    Some(k)
                },
                None => {
                    proof {
                        assert forall|j: int| 0 <= j < model.len() implies (#[trigger] model[j]).0
                            != key@ by {
                            assert(entries@[j].0@ != key@);
                        }
                        lemma_index_of_key_none(model, key@);
                    }
                    None
                },
            }
        },
        _ => None,
    }
}

/// A value in the store's JSON shape as a plain dynamic value.
pub fn convert_firestore_value_to_json(value: &JsonValue) -> (r: JsonValue)
    ensures
        r@ == plain_json(value@),
    decreases value,
{
    proof {
        lemma_member_at(value@, "doubleValue"@);
        lemma_member_at(value@, "booleanValue"@);
    }
    if let Some(JsonValue::String(s)) = value.get("stringValue") {
        return JsonValue::String(s.clone());
    }
    if let Some(JsonValue::String(s)) = value.get("integerValue") {
        return match parse_i64(s.as_str()) {
            Some(i) => JsonValue::Number(JsonNumber::Integer(i)),
            None => JsonValue::String(s.clone()),
        };
    }
    if let Some(JsonValue::Number(n)) = value.get("doubleValue") {
        return JsonValue::Number(n.clone_number());
    }
    if let Some(JsonValue::Bool(b)) = value.get("booleanValue") {
        return JsonValue::Bool(*b);
    }
    if let Some(JsonValue::String(s)) = value.get("timestampValue") {
        return JsonValue::String(s.clone());
    }
    let outer = match value {
        JsonValue::Object(outer) => outer,
        _ => {
            return JsonValue::Null;
        },
    };
    if let Some(a) = member_position(value, "arrayValue") {
        let inner = &outer[a].1;
        if let Some(v) = member_position(inner, "values") {
            if let JsonValue::Object(members) = inner {
                if let JsonValue::Array(items) = &members[v].1 {
                    proof {
                        lemma_view_array(*items);
                    }
                    let mut out: Vec<JsonValue> = Vec::new();
                    let mut i: usize = 0;
                    while i < items.len()
                        invariant
                            i <= items.len(),
                            out@.len() == i,
                            *value == JsonValue::Object(*outer),
                            a < outer@.len(),
                            outer@[a as int].1 == JsonValue::Object(*members),
                            v < members@.len(),
                            members@[v as int].1 == JsonValue::Array(*items),
                            forall|x: int|
                                0 <= x < i ==> (#[trigger] out@[x])@ == plain_json(items@[x]@),
                        decreases items.len() - i,
                    {
                        assert(decreases_to!(*value => value->Object_0[a as int].1->Object_0[v as int].1->Array_0[i as int]));
                        out.push(convert_firestore_value_to_json(&items[i]));
                        i += 1;
                    }
                    proof {
                        lemma_view_array(out);
                        assert(values_view(out@) =~= plain_json(value@)->Array_0);
                    }
                    return JsonValue::Array(out);
                }
            }
        }
    }
    if let Some(m) = member_position(value, "mapValue") {
        let inner = &outer[m].1;
        if let Some(f) = member_position(inner, "fields") {
            if let JsonValue::Object(members) = inner {
                if let JsonValue::Object(entries) = &members[f].1 {
                    proof {
                        lemma_view_object(*entries);
                    }
                    let mut out: Vec<(String, JsonValue)> = Vec::new();
                    let mut i: usize = 0;
                    while i < entries.len()
                        invariant
                            i <= entries.len(),
                            out@.len() == i,
                            *value == JsonValue::Object(*outer),
                            m < outer@.len(),
                            outer@[m as int].1 == JsonValue::Object(*members),
                            f < members@.len(),
                            members@[f as int].1 == JsonValue::Object(*entries),
                            forall|x: int|
                                0 <= x < i ==> (#[trigger] out@[x]).0@ == entries@[x].0@
                                    && out@[x].1@ == plain_json(entries@[x].1@),
                        decreases entries.len() - i,
                    {
                        assert(decreases_to!(*value => value->Object_0[m as int].1->Object_0[f as int].1->Object_0[i as int].1));
                        out.push(
                            (entries[i].0.clone(), convert_firestore_value_to_json(&entries[i].1)),
                        );
                        i += 1;
                    }
                    proof {
                        lemma_view_object(out);
                        assert(entries_view(out@) =~= plain_json(value@)->Object_0);
                    }
                    return JsonValue::Object(out);
                }
            }
        }
    }
    JsonValue::Null
}

/// A document in the store's JSON shape as a plain dynamic object.
pub fn convert_firestore_doc_to_json(doc: &JsonValue) -> (r: JsonValue)
    ensures
        r@ == plain_document(doc@),
{
    proof {
        lemma_member_at(doc@, "fields"@);
    }
    match doc.get("fields") {
        Some(JsonValue::Object(fields)) => {
            proof {
                lemma_view_object(*fields);
            }
            let mut out: Vec<(String, JsonValue)> = Vec::new();
            let mut i: usize = 0;
            while i < fields.len()
                invariant
                    i <= fields.len(),
                    out@.len() == i,
                    forall|x: int|
                        0 <= x < i ==> (#[trigger] out@[x]).0@ == fields@[x].0@ && out@[x].1@
                            == plain_json(fields@[x].1@),
                decreases fields.len() - i,
            {
                out.push((fields[i].0.clone(), convert_firestore_value_to_json(&fields[i].1)));
                i += 1;
            }
            proof {
                lemma_view_object(out);
                assert(entries_view(out@) =~= plain_document(doc@)->Object_0);
            }
            JsonValue::Object(out)
        },
        _ => JsonValue::Null,
    }
}


/// The schema says of every field of the sample, in the order in which the
/// fields were first seen, what the statistics of the sample hold.
pub open spec fn describes_sample(schema: CollectionSchema, docs: Seq<JsonModel>) -> bool {
    let table = observe_documents(docs);
    &&& schema.total_documents == docs.len()
    &&& schema.fields@.len() == table.len()
    &&& forall|i: int|
        0 <= i < table.len() ==> describes(
            #[trigger] schema.fields@[i],
            table[i].0,
            table[i].1,
            docs.len(),
        )
    &&& match schema.sample_document {
        Some(sample) => docs.len() > 0 && sample@ == plain_document(docs[0]),
        None => docs.len() == 0,
    }
}

/// In a description of a sample, a field's frequency is the number of
/// documents in which the field occurs, and the field is required exactly
/// when it occurs in all of them.
pub proof fn lemma_description_counts(schema: CollectionSchema, docs: Seq<JsonModel>, i: int)
    requires
        describes_sample(schema, docs),
        0 <= i < schema.fields@.len(),
    ensures
        schema.fields@[i].frequency == documents_with(docs, schema.fields@[i].name@),
        schema.fields@[i].is_required == (documents_with(docs, schema.fields@[i].name@)
            == docs.len()),
{
    let table = observe_documents(docs);
    let name = table[i].0;
    lemma_frequency_counts_documents(docs, name);
    assert forall|j: int| 0 <= j < i implies (#[trigger] table[j]).0 != name by {}
    lemma_index_of_key_is(table, name, i);
}

/// The description of a sample of documents in the store's JSON shape.
pub fn describe_documents(collection_name: &str, documents: &Vec<JsonValue>) -> (r:
    CollectionSchema)
    ensures
        r.collection_name@ == collection_name@,
        describes_sample(r, values_view(documents@)),
{
    let table = collect_stats(documents);
    let total = documents.len();
    let mut fields: Vec<FieldInfo> = Vec::new();
    let mut i: usize = 0;
    while i < table.len()
        invariant
            i <= table.len(),
            fields@.len() == i,
            forall|k: int|
                0 <= k < i ==> describes(
                    #[trigger] fields@[k],
                    table@[k].0@,
                    table@[k].1@,
                    total as nat,
                ),
        decreases table.len() - i,
    {
        fields.push(field_info(table[i].0.as_str(), &table[i].1, total));
        i += 1;
    }
    let sample_document = if documents.len() > 0 {
        Some(convert_firestore_doc_to_json(&documents[0]))
    } else {
        None
    };
    let r = CollectionSchema {
        collection_name: String::from_str(collection_name),
        total_documents: total,
        fields,
        sample_document,
    };
    proof {
        let model = observe_documents(values_view(documents@));
        assert forall|k: int| 0 <= k < model.len() implies describes(
            #[trigger] r.fields@[k],
            model[k].0,
            model[k].1,
            values_view(documents@).len(),
        ) by {
            assert(table_view(table@)[k] == (table@[k].0@, table@[k].1@));
        }
    }
    r
}

/// The documents of a list response: none where the response has no array
/// under `documents`.
pub open spec fn sampled_documents(j: JsonModel) -> Seq<JsonModel> {
    member_items(j, "documents"@)
}

/// The page size for a sample: no more than the store's cap of 100.
pub open spec fn sample_page_size(sample_size: usize) -> nat {
    if sample_size < 100 {
        sample_size as nat
    } else {
        100
    }
}

/// The names that are tried when collections are to be discovered, unless
/// the caller brings a list of their own.
pub open spec fn default_names() -> Seq<Seq<char>> {
    seq![
        "users"@,
        "posts"@,
        "comments"@,
        "products"@,
        "orders"@,
        "customers"@,
        "articles"@,
        "messages"@,
        "notifications"@,
        "settings"@,
        "logs"@,
        "events"@,
        "analytics"@,
        "feedback"@,
        "reviews"@,
        "categories"@,
    ]
}

/// The names that are tried when collections are to be discovered, unless
/// the caller brings a list of their own.
pub fn default_candidates() -> (r: Vec<String>)
    ensures
        texts(r@) == default_names(),
{
    let mut names: Vec<String> = Vec::new();
    names.push(String::from_str("users"));
    names.push(String::from_str("posts"));
    names.push(String::from_str("comments"));
    names.push(String::from_str("products"));
    names.push(String::from_str("orders"));
    names.push(String::from_str("customers"));
    names.push(String::from_str("articles"));
    names.push(String::from_str("messages"));
    names.push(String::from_str("notifications"));
    names.push(String::from_str("settings"));
    names.push(String::from_str("logs"));
    names.push(String::from_str("events"));
    names.push(String::from_str("analytics"));
    names.push(String::from_str("feedback"));
    names.push(String::from_str("reviews"));
    names.push(String::from_str("categories"));
    assert(texts(names@) =~= default_names());
    names
}

/// Where an info with `count` documents goes among infos ranked by their
/// counts, largest first: behind all that have at least as many.
pub open spec fn rank_position(ranked: Seq<CollectionInfo>, count: usize) -> int
    decreases ranked.len(),
{
    if ranked.len() == 0 || ranked[0].document_count < count {
        0
    } else {
        1 + rank_position(ranked.skip(1), count)
    }
}

/// The infos of the collections that hold documents, the largest first;
/// collections of the same size keep their order.
pub open spec fn ranked(infos: Seq<CollectionInfo>) -> Seq<CollectionInfo>
    decreases infos.len(),
{
    if infos.len() == 0 {
        Seq::empty()
    } else {
        let before = ranked(infos.drop_last());
        let info = infos.last();
        if info.document_count > 0 {
            before.insert(rank_position(before, info.document_count), info)
        } else {
            before
        }
    }
}

pub proof fn lemma_rank_position(ranked: Seq<CollectionInfo>, count: usize)
    ensures
        0 <= rank_position(ranked, count) <= ranked.len(),
        forall|i: int|
            0 <= i < rank_position(ranked, count) ==> (#[trigger] ranked[i]).document_count
                >= count,
        rank_position(ranked, count) < ranked.len() ==> ranked[rank_position(
            ranked,
            count,
        )].document_count < count,
    decreases ranked.len(),
{
    if ranked.len() == 0 || ranked[0].document_count < count {
    } else {
        let rest = ranked.skip(1);
        lemma_rank_position(rest, count);
        assert forall|i: int| 0 <= i < rank_position(ranked, count) implies (
        #[trigger] ranked[i]).document_count >= count by {
            if i > 0 {
                assert(rest[i - 1] == ranked[i]);
            }
        }
        if rank_position(ranked, count) < ranked.len() {
            assert(rest[rank_position(rest, count)] == ranked[rank_position(ranked, count)]);
        }
    }
}

/// Largest first: no info stands before one with more documents.
pub open spec fn is_ranked(infos: Seq<CollectionInfo>) -> bool {
    forall|i: int, j: int|
        0 <= i < j < infos.len() ==> (#[trigger] infos[i]).document_count >= (
        #[trigger] infos[j]).document_count
}

/// What `ranked` gives is ranked, and holds no empty collection.
pub proof fn lemma_ranked(infos: Seq<CollectionInfo>)
    ensures
        is_ranked(ranked(infos)),
        forall|i: int| 0 <= i < ranked(infos).len() ==> (#[trigger] ranked(infos)[i]).document_count > 0,
        ranked(infos).len() <= infos.len(),
    decreases infos.len(),
{
    if infos.len() > 0 {
        let before = ranked(infos.drop_last());
        let info = infos.last();
        lemma_ranked(infos.drop_last());
        if info.document_count > 0 {
            let p = rank_position(before, info.document_count);
            lemma_rank_position(before, info.document_count);
            let after = before.insert(p, info);
            assert forall|i: int, j: int| 0 <= i < j < after.len() implies (
            #[trigger] after[i]).document_count >= (#[trigger] after[j]).document_count by {
                if j < p {
                    assert(after[i] == before[i] && after[j] == before[j]);
                } else if j == p {
                    assert(after[i] == before[i]);
                } else {
                    assert(after[j] == before[j - 1]);
                    if i < p {
                        assert(after[i] == before[i]);
                    } else if i == p {
                        if p < before.len() {
                            assert(before[p].document_count < info.document_count);
                            assert(before[p].document_count >= before[j - 1].document_count || p
                                == j - 1);
                        }
                    } else {
                        assert(after[i] == before[i - 1]);
                    }
                }
            }
            assert forall|i: int| 0 <= i < after.len() implies (#[trigger] after[i]).document_count
                > 0 by {
                if i < p {
                    assert(after[i] == before[i]);
                } else if i > p {
                    assert(after[i] == before[i - 1]);
                }
            }
        }
    }
}

/// Ranks the infos of the collections that hold documents, the largest
/// first; collections of the same size keep their order.
pub fn rank_collections(infos: Vec<CollectionInfo>) -> (r: Vec<CollectionInfo>)
    ensures
        r@ == ranked(infos@),
        is_ranked(r@),
{
    let ghost all = infos@;
    let mut rest = infos;
    let mut out: Vec<CollectionInfo> = Vec::new();
    let ghost mut done: int = 0;
    proof {
        assert(all.take(0) =~= Seq::empty());
        assert(all.skip(0) =~= all);
    }
    while rest.len() > 0
        invariant
            0 <= done <= all.len(),
            rest@ == all.skip(done),
            out@ == ranked(all.take(done)),
        decreases rest.len(),
    {
        let info = rest.remove(0);
        proof {
            let next = all.take(done + 1);
            assert(next.drop_last() =~= all.take(done));
            assert(next.last() == all[done]);
            assert(info == all[done]);
            assert(rest@ =~= all.skip(done + 1));
            lemma_ranked(all.take(done));
        }
        if info.document_count > 0 {
            let mut p: usize = 0;
            proof {
                assert(out@.skip(0) =~= out@);
            }
            while p < out.len() && out[p].document_count >= info.document_count
                invariant
                    p <= out.len(),
                    rank_position(out@, info.document_count) == p + rank_position(
                        out@.skip(p as int),
                        info.document_count,
                    ),
                decreases out.len() - p,
            {
                proof {
                    let tail = out@.skip(p as int);
                    assert(tail[0] == out@[p as int]);
                    assert(tail.skip(1) =~= out@.skip(p + 1));
                }
                p += 1;
            }
            proof {
                let tail = out@.skip(p as int);
                if p < out.len() {
                    assert(tail[0] == out@[p as int]);
                }
            }
            out.insert(p, info);
        }
        proof {
            done = done + 1;
        }
    }
    proof {
        assert(all.take(done) =~= all);
        lemma_ranked(all);
    }
    out
}

/// `a` divided by `d`, rounded to the nearest whole number, a half going to
/// the even neighbour.
pub open spec fn round_half_even(a: int, d: int) -> int
    recommends
        a >= 0,
        d > 0,
{
    let q = a / d;
    let r = a % d;
    if 2 * r > d || (2 * r == d && q % 2 == 1) {
        q + 1
    } else {
        q
    }
}

/// `n / d` with one digit after the point.
pub open spec fn one_decimal(n: int, d: int) -> Seq<char> {
    let tenths = round_half_even(n * 10, d);
    decimal((tenths / 10) as nat) + "."@ + decimal((tenths % 10) as nat)
}

/// A guess at the size of a collection, at two kilobytes for each document.
pub open spec fn size_estimate(doc_count: usize) -> Seq<char> {
    let bytes = doc_count as int * 2048;
    if doc_count == 0 {
        "Empty"@
    } else if bytes < 0x10_0000 {
        one_decimal(bytes, 0x400) + "KB"@
    } else if bytes < 0x4000_0000 {
        one_decimal(bytes, 0x10_0000) + "MB"@
    } else {
        one_decimal(bytes, 0x4000_0000) + "GB"@
    }
}

fn format_one_decimal(n: u128, d: u128) -> (r: String)
    requires
        d > 0,
        n * 10 < 0x1_0000_0000_0000_0000_0000,
        d < 0x1_0000_0000_0000,
        n / d < 0x1000_0000_0000_0000,
    ensures
        r@ == one_decimal(n as int, d as int),
{
    let a: u128 = n * 10;
    let q: u128 = a / d;
    let rem: u128 = a % d;
    proof {
        assert(q <= 10 * (n / d) + 9) by (nonlinear_arith)
            requires
                a == n * 10,
                q == a / d,
                d > 0,
        ;
    }
    let tenths: u128 = if 2 * rem > d || (2 * rem == d && q % 2 == 1) {
        q + 1
    } else {
        q
    };
    let whole: u64 = (tenths / 10) as u64;
    let digit: u64 = (tenths % 10) as u64;
    concat3(format_u64(whole).as_str(), ".", format_u64(digit).as_str())
}

/// A guess at the size of a collection, at two kilobytes for each document.
pub fn format_size_estimate(doc_count: usize) -> (r: String)
    ensures
        r@ == size_estimate(doc_count),
{
    if doc_count == 0 {
        return String::from_str("Empty");
    }
    let bytes: u128 = doc_count as u128 * 2048;
    if bytes < 0x10_0000 {
        concat2(format_one_decimal(bytes, 0x400).as_str(), "KB")
    } else if bytes < 0x4000_0000 {
        concat2(format_one_decimal(bytes, 0x10_0000).as_str(), "MB")
    } else {
        concat2(format_one_decimal(bytes, 0x4000_0000).as_str(), "GB")
    }
}


/// The update time of the first document of a list response, where it has one.
pub open spec fn first_update_time(j: JsonModel) -> Option<Seq<char>> {
    let docs = sampled_documents(j);
    if docs.len() > 0 {
        member_text(docs[0], "updateTime"@)
    } else {
        None
    }
}

/// One line for each collection: its name, its documents, its size.
pub open spec fn collection_lines(collections: Seq<CollectionInfo>) -> Seq<char>
    decreases collections.len(),
{
    if collections.len() == 0 {
        Seq::empty()
    } else {
        let c = collections.last();
        collection_lines(collections.drop_last()) + "  "@ + c.name@ + " - "@ + decimal(
            c.document_count as nat,
        ) + " documents ("@ + c.estimated_size@ + ")\n"@
    }
}

/// The lines for one field: what it is, and its sample values where it has some.
pub open spec fn field_lines(field: FieldInfo) -> Seq<char> {
    let head = "  "@ + field.name@ + " ("@ + field.field_type@ + ")"@ + if field.is_required {
        " *required"@
    } else {
        ""@
    } + " - "@ + decimal(field.frequency as nat) + " occurrences\n"@;
    if field.sample_values@.len() > 0 {
        head + "    Samples: "@ + joined(texts(field.sample_values@), ", "@) + "\n"@
    } else {
        head
    }
}

/// The lines for the fields, in order.
pub open spec fn fields_lines(fields: Seq<FieldInfo>) -> Seq<char>
    decreases fields.len(),
{
    if fields.len() == 0 {
        Seq::empty()
    } else {
        fields_lines(fields.drop_last()) + field_lines(fields.last())
    }
}

#[derive(Debug)]
pub struct CollectionManager {
    client: FirebaseClient,
    candidates: Vec<String>,
}

impl CollectionManager {
    /// The client that the manager asks through.
    pub closed spec fn client_model(&self) -> FirebaseClient {
        self.client
    }

    /// The names that the manager tries when it discovers collections.
    pub closed spec fn candidate_names(&self) -> Seq<String> {
        self.candidates@
    }

    /// A manager that tries the usual names when it discovers collections.
    pub fn new(client: FirebaseClient) -> (r: Self)
        ensures
            r.client_model() == client,
            texts(r.candidate_names()) == default_names(),
    {
        Self { client, candidates: default_candidates() }
    }

    /// A manager that tries the given names when it discovers collections.
    pub fn with_candidates(client: FirebaseClient, candidates: Vec<String>) -> (r: Self)
        ensures
            r.client_model() == client,
            r.candidate_names() == candidates@,
    {
        Self { client, candidates }
    }

    /// The client that the manager asks through.
    pub fn client(&self) -> (r: &FirebaseClient)
        ensures
            *r == self.client_model(),
    {
        &self.client
    }

    /// The names to try when collections are to be discovered: the
    /// candidates, then the collection in which schemas are kept.
    pub fn probe_names(&self) -> (r: Vec<String>)
        ensures
            texts(r@) == texts(self.candidate_names()).push("_metadata_collections"@),
    {
        let mut names = clone_texts(&self.candidates);
        names.push(String::from_str("_metadata_collections"));
        assert(texts(names@) =~= texts(self.candidates@).push("_metadata_collections"@));
        names
    }

    fn page_request(&self, collection_name: &str, page_size: usize) -> (r: HttpRequest)
        ensures
            r@ == (RequestModel {
                method: HttpMethod::Get,
                url: keyed(
                    collection_url(self.client_model().base_url@, collection_name@),
                    self.client_model().api_key@,
                ) + "&pageSize="@ + decimal(page_size as nat),
                body: None,
            }),
    {
        self.client.list_request(collection_name, Some(page_size))
    }

    /// The request that looks at the first document of a collection.
    pub fn collection_info_request(&self, collection_name: &str) -> (r: HttpRequest)
        ensures
            r@ == (RequestModel {
                method: HttpMethod::Get,
                url: keyed(
                    collection_url(self.client_model().base_url@, collection_name@),
                    self.client_model().api_key@,
                ) + "&pageSize="@ + decimal(1),
                body: None,
            }),
    {
        self.page_request(collection_name, 1)
    }

    /// The request that counts the documents of a collection, up to one page of 100.
    pub fn estimate_request(&self, collection_name: &str) -> (r: HttpRequest)
        ensures
            r@ == (RequestModel {
                method: HttpMethod::Get,
                url: keyed(
                    collection_url(self.client_model().base_url@, collection_name@),
                    self.client_model().api_key@,
                ) + "&pageSize="@ + decimal(100),
                body: None,
            }),
    {
        self.page_request(collection_name, 100)
    }

    /// The request that samples a collection for a description: one page of
    /// `sample_size` documents, and of no more than 100.
    pub fn describe_request(&self, collection_name: &str, sample_size: usize) -> (r: HttpRequest)
        ensures
            r@ == (RequestModel {
                method: HttpMethod::Get,
                url: keyed(
                    collection_url(self.client_model().base_url@, collection_name@),
                    self.client_model().api_key@,
                ) + "&pageSize="@ + decimal(sample_page_size(sample_size)),
                body: None,
            }),
    {
        let size: usize = if sample_size < 100 {
            sample_size
        } else {
            100
        };
        self.page_request(collection_name, size)
    }

    /// How many documents the counting request saw: 0 for any response that
    /// is no success or no JSON.
    pub fn estimate_document_count(response: &HttpResponse) -> (r: usize)
        ensures
            r == if is_success(response.status) {
                match json_of_text(response.body@) {
                    Some(j) => sampled_documents(j).len(),
                    None => 0,
                }
            } else {
                0
            },
    {
        if !(200 <= response.status && response.status < 300) {
            return 0;
        }
        match parse_json(response.body.as_str()) {
            Ok(j) => match documents_of(&j) {
                Some(docs) => docs.len(),
                None => 0,
            },
            Err(_) => 0,
        }
    }

    /// What is known of a collection from the look at its first document and
    /// from the count of its documents. Status 404 is `NotFound` with the name
    /// of the collection; any other status but success is a store error that
    /// carries the body; a body that is no JSON is a `SerdeError`.
    pub fn get_collection_info(
        collection_name: &str,
        response: &HttpResponse,
        document_count: usize,
    ) -> (r: Result<CollectionInfo, FirebaseError>)
        ensures
            match r {
                Ok(info) => is_success(response.status) && (json_of_text(
                    response.body@,
                ) matches Some(j) && info.name@ == collection_name@ && info.document_count
                    == document_count && info.estimated_size@ == size_estimate(document_count)
                    && crate::wire::optional_view(info.last_modified) == first_update_time(j)),
                Err(e) => if response.status == 404 {
                    e@ == not_found(collection_name@)
                } else if !is_success(response.status) {
                    e@ == store_failure("Failed to get collection info: "@, response.body@)
                } else {
                    json_of_text(response.body@) is None && e@.kind == ErrorKind::Serde
                },
            },
    {
        if response.status == 404 {
            return Err(FirebaseError::NotFound(String::from_str(collection_name)));
        }
        if !(200 <= response.status && response.status < 300) {
            return Err(
                FirebaseError::DatabaseError(
                    concat2("Failed to get collection info: ", response.body.as_str()),
                ),
            );
        }
        let j = match parse_json(response.body.as_str()) {
            Ok(j) => j,
            Err(e) => {
                return Err(e);
            },
        };
        let last_modified = match documents_of(&j) {
            Some(docs) => if docs.len() > 0 {
                match docs[0].get("updateTime") {
                    Some(JsonValue::String(s)) => Some(s.clone()),
                    _ => None,
                }
            } else {
                None
            },
            None => None,
        };
        Ok(
            CollectionInfo {
                name: String::from_str(collection_name),
                document_count,
                estimated_size: format_size_estimate(document_count),
                last_modified,
            },
        )
    }

    /// The collections that hold documents, the largest first.
    pub fn list_collections(infos: Vec<CollectionInfo>) -> (r: Vec<CollectionInfo>)
        ensures
            r@ == ranked(infos@),
            is_ranked(r@),
    {
        rank_collections(infos)
    }

    /// The description of a collection from the response to the sampling
    /// request. Status 404 is `NotFound` with the name of the collection; any
    /// other status but success is a store error that carries the body; a
    /// body that is no JSON is a `SerdeError`; a sample without documents is
    /// `NotFound` too (a collection that is empty and one that is not there
    /// look the same from here).
    pub fn describe_collection(collection_name: &str, response: &HttpResponse) -> (r: Result<
        CollectionSchema,
        FirebaseError,
    >)
        ensures
            match r {
                Ok(schema) => is_success(response.status) && (json_of_text(
                    response.body@,
                ) matches Some(j) && sampled_documents(j).len() > 0 && schema.collection_name@
                    == collection_name@ && describes_sample(schema, sampled_documents(j))),
                Err(e) => if response.status == 404 {
                    e@ == not_found(collection_name@)
                } else if !is_success(response.status) {
                    e@ == store_failure("Failed to describe collection: "@, response.body@)
                } else {
                    match json_of_text(response.body@) {
                        Some(j) => sampled_documents(j).len() == 0 && e@ == not_found(
                            "No documents found in collection "@ + collection_name@,
                        ),
                        None => e@.kind == ErrorKind::Serde,
                    }
                },
            },
    {
        if response.status == 404 {
            return Err(FirebaseError::NotFound(String::from_str(collection_name)));
        }
        if !(200 <= response.status && response.status < 300) {
            return Err(
                FirebaseError::DatabaseError(
                    concat2("Failed to describe collection: ", response.body.as_str()),
                ),
            );
        }
        let j = match parse_json(response.body.as_str()) {
            Ok(j) => j,
            Err(e) => {
                return Err(e);
            },
        };
        match documents_of(&j) {
            Some(docs) => {
                if docs.len() > 0 {
                    return Ok(describe_documents(collection_name, docs));
                }
            },
            None => {},
        }
        Err(FirebaseError::NotFound(concat2("No documents found in collection ", collection_name)))
    }

    /// The collections as plain text, one line for each.
    pub fn format_collections_table(collections: &Vec<CollectionInfo>) -> (r: String)
        ensures
            r@ == "Collections:\n"@ + collection_lines(collections@),
    {
        let mut output = String::from_str("Collections:\n");
        let mut i: usize = 0;
        proof {
            assert(collections@.take(0) =~= Seq::empty());
            assert(output@ =~= "Collections:\n"@ + collection_lines(collections@.take(0)));
        }
        while i < collections.len()
            invariant
                i <= collections.len(),
                output@ == "Collections:\n"@ + collection_lines(collections@.take(i as int)),
            decreases collections.len() - i,
        {
            let c = &collections[i];
            output.append("  ");
            output.append(c.name.as_str());
            output.append(" - ");
            output.append(format_u64(c.document_count as u64).as_str());
            output.append(" documents (");
            output.append(c.estimated_size.as_str());
            output.append(")\n");
            proof {
                let next = collections@.take(i + 1);
                assert(next.drop_last() =~= collections@.take(i as int));
                assert(next.last() == collections@[i as int]);
                assert(output@ =~= "Collections:\n"@ + collection_lines(next));
            }
            i += 1;
        }
        proof {
            assert(collections@.take(i as int) =~= collections@);
        }
        output
    }

    /// A description as plain text: a heading, then the lines of each field.
    pub fn format_schema_table(schema: &CollectionSchema) -> (r: String)
        ensures
            r@ == "Collection: "@ + schema.collection_name@ + " ("@ + decimal(
                schema.total_documents as nat,
            ) + " documents)\n\nFields:\n"@ + fields_lines(schema.fields@),
    {
        let mut output = String::from_str("Collection: ");
        output.append(schema.collection_name.as_str());
        output.append(" (");
        output.append(format_u64(schema.total_documents as u64).as_str());
        output.append(" documents)\n\nFields:\n");
        let ghost head = output@;
        let mut i: usize = 0;
        proof {
            assert(schema.fields@.take(0) =~= Seq::empty());
            assert(output@ =~= head + fields_lines(schema.fields@.take(0)));
        }
        while i < schema.fields.len()
            invariant
                i <= schema.fields.len(),
                output@ == head + fields_lines(schema.fields@.take(i as int)),
            decreases schema.fields.len() - i,
        {
            let field = &schema.fields[i];
            let ghost before = output@;
            let lines = field_lines_text(field);
            output.append(lines.as_str());
            proof {
                let next = schema.fields@.take(i + 1);
                assert(next.drop_last() =~= schema.fields@.take(i as int));
                assert(next.last() == schema.fields@[i as int]);
                assert(output@ =~= head + fields_lines(next));
            }
            i += 1;
        }
        proof {
            assert(schema.fields@.take(i as int) =~= schema.fields@);
        }
        output
    }
}

/// The lines for one field.
fn field_lines_text(field: &FieldInfo) -> (r: String)
    ensures
        r@ == field_lines(*field),
{
    let mut head = concat3("  ", field.name.as_str(), " (");
    head.append(field.field_type.as_str());
    head.append(")");
    if field.is_required {
        head.append(" *required");
    } else {
        head.append("");
    }
    head.append(" - ");
    head.append(format_u64(field.frequency as u64).as_str());
    head.append(" occurrences\n");
    if field.sample_values.len() > 0 {
        let samples = join(&field.sample_values, ", ");
        let ghost first = head@;
        head.append("    Samples: ");
        head.append(samples.as_str());
        head.append("\n");
        assert(head@ =~= first + "    Samples: "@ + samples@ + "\n"@);
    }
    head
}

/// The documents of a list response.
fn documents_of(j: &JsonValue) -> (r: Option<&Vec<JsonValue>>)
    ensures
        match r {
            Some(items) => values_view(items@) == sampled_documents(j@),
            None => sampled_documents(j@).len() == 0,
        },
{
    proof {
        if let JsonModel::Object(entries) = j@ {
            lemma_index_of_key(entries, "documents"@);
        }
    }
    match j.get("documents") {
        Some(JsonValue::Array(items)) => {
            proof {
                lemma_view_array(*items);
            }
            Some(items)
        },
        _ => None,
    }
}

} // verus!
