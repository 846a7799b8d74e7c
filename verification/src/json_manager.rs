//! Schemas and data as JSON documents: the shape of a schema file, the shape
//! of a data export, and the way from a schema file to declared collections.

use vstd::prelude::*;
use crate::collections::{CollectionSchema, FieldInfo};
use crate::convert::{json_value_to_firestore, wire_of_json};
use crate::error::{config_error, ErrorKind, ErrorModel, FirebaseError};
use crate::firebase::{is_success, store_failure, FirebaseClient, HttpResponse};
use crate::json::{
    array_of, count_json, count_model, entries_view, index_of_key, json_of_text,
    lemma_index_of_key, lemma_index_of_key_is, lemma_view_array, lemma_view_object, object_of,
    optional_text_json, optional_value_json, parse_json, push_member, text_or_null, value_or_null, values_view, JsonModel, JsonNumber,
    JsonNumberModel, JsonValue,
};
use crate::models::FirestoreValue;
use crate::schema::{
    defined, defined_all, Collection, Field, FieldType, Index, IndexField, IndexOrder,
    SchemaManager, ValidationRule, ValidationRuleType,
};
use crate::text::{
    concat2, concat3, decimal, decimal_int, format_i64, format_u64, has_prefix, join, joined,
    parse_i64, parse_i64_spec, starts_with, str_eq, strip_both, texts, without_both,
};
use crate::wire::{member_items, member_text, number_text, optional_view};

verus! {

#[derive(Debug)]
pub struct JsonSchema {
    pub version: String,
    /// The collections by name, in the order of the file.
    pub collections: Vec<(String, JsonCollection)>,
}

#[derive(Debug)]
pub struct JsonCollection {
    pub name: String,
    pub description: Option<String>,
    pub fields: Vec<JsonField>,
    pub indexes: Vec<JsonIndex>,
    pub validation_rules: Vec<JsonValidationRule>,
}

#[derive(Debug)]
pub struct JsonField {
    pub name: String,
    pub field_type: String,
    pub required: bool,
    pub default_value: Option<JsonValue>,
    pub description: Option<String>,
}

#[derive(Debug)]
pub struct JsonIndex {
    pub fields: Vec<JsonIndexField>,
    pub unique: bool,
    pub description: Option<String>,
}

#[derive(Debug)]
pub struct JsonIndexField {
    pub field_path: String,
    /// `asc` or `desc`.
    pub order: String,
}

#[derive(Debug)]
pub struct JsonValidationRule {
    pub field: String,
    pub rule_type: String,
    pub value: Option<JsonValue>,
    pub description: Option<String>,
}

#[derive(Debug)]
pub struct DataExport {
    pub collection: String,
    /// When the export was made, as RFC 3339 text.
    pub exported_at: String,
    pub count: usize,
    pub data: Vec<JsonValue>,
}

#[derive(Debug)]
pub struct JsonSchemaManager {
    schema_manager: SchemaManager,
    client: FirebaseClient,
}

/// The view of a value that may be absent, `null` counting as absent.
pub open spec fn optional_json(v: Option<JsonValue>) -> Option<JsonModel> {
    match v {
        Some(v) => if v@ is Null {
            None
        } else {
            Some(v@)
        },
        None => None,
    }
}

/// The member under `key`, `null` counting as absent.
pub open spec fn member_unless_null(j: JsonModel, key: Seq<char>) -> Option<JsonModel> {
    match j.member(key) {
        Some(JsonModel::Null) => None,
        other => other,
    }
}

/// The truth value under the member `key`.
pub open spec fn member_flag(j: JsonModel, key: Seq<char>) -> Option<bool> {
    match j.member(key) {
        Some(JsonModel::Bool(b)) => Some(b),
        _ => None,
    }
}

/// The array under the member `key`.
pub open spec fn member_array(j: JsonModel, key: Seq<char>) -> Option<Seq<JsonModel>> {
    match j.member(key) {
        Some(JsonModel::Array(items)) => Some(items),
        _ => None,
    }
}

/// The object under the member `key`.
pub open spec fn member_object(j: JsonModel, key: Seq<char>) -> Option<Seq<(Seq<char>, JsonModel)>> {
    match j.member(key) {
        Some(JsonModel::Object(entries)) => Some(entries),
        _ => None,
    }
}

/// `j` has the members that a field of a schema file cannot do without.
pub open spec fn field_shape(j: JsonModel) -> bool {
    member_text(j, "name"@) is Some && member_text(j, "field_type"@) is Some && member_flag(
        j,
        "required"@,
    ) is Some
}

/// `j` has the members that a field of an index cannot do without.
pub open spec fn index_field_shape(j: JsonModel) -> bool {
    member_text(j, "field_path"@) is Some && member_text(j, "order"@) is Some
}

/// `j` has the members that an index cannot do without.
pub open spec fn index_shape(j: JsonModel) -> bool {
    &&& member_array(j, "fields"@) matches Some(items)
    &&& forall|i: int| 0 <= i < items.len() ==> index_field_shape(#[trigger] items[i])
    &&& member_flag(j, "unique"@) is Some
}

/// `j` has the members that a rule cannot do without.
pub open spec fn rule_shape(j: JsonModel) -> bool {
    member_text(j, "field"@) is Some && member_text(j, "rule_type"@) is Some
}

/// `j` has the members that a collection cannot do without, and so has
/// every field, index and rule in it.
pub open spec fn collection_shape(j: JsonModel) -> bool {
    &&& member_text(j, "name"@) is Some
    &&& member_array(j, "fields"@) matches Some(fields)
    &&& member_array(j, "indexes"@) matches Some(indexes)
    &&& member_array(j, "validation_rules"@) matches Some(rules)
    &&& forall|i: int| 0 <= i < fields.len() ==> field_shape(#[trigger] fields[i])
    &&& forall|i: int| 0 <= i < indexes.len() ==> index_shape(#[trigger] indexes[i])
    &&& forall|i: int| 0 <= i < rules.len() ==> rule_shape(#[trigger] rules[i])
}

/// `j` has the members that a schema file cannot do without, and so has
/// every collection in it.
pub open spec fn schema_shape(j: JsonModel) -> bool {
    &&& member_text(j, "version"@) is Some
    &&& member_object(j, "collections"@) matches Some(entries)
    &&& forall|i: int| 0 <= i < entries.len() ==> collection_shape((#[trigger] entries[i]).1)
}

/// A field of a schema file as JSON: these members, in this order, and no other.
pub open spec fn field_item(
    name: Seq<char>,
    field_type: Seq<char>,
    required: bool,
    default_value: JsonModel,
    description: JsonModel,
) -> JsonModel {
    JsonModel::Object(
        seq![
            ("name"@, JsonModel::String(name)),
            ("field_type"@, JsonModel::String(field_type)),
            ("required"@, JsonModel::Bool(required)),
            ("default_value"@, default_value),
            ("description"@, description),
        ],
    )
}

/// A field of an index as JSON.
pub open spec fn index_field_item(field_path: Seq<char>, order: Seq<char>) -> JsonModel {
    JsonModel::Object(
        seq![("field_path"@, JsonModel::String(field_path)), ("order"@, JsonModel::String(order))],
    )
}

/// An index as JSON, over the JSON of its fields.
pub open spec fn index_item(fields: Seq<JsonModel>, unique: bool, description: JsonModel) -> JsonModel {
    JsonModel::Object(
        seq![
            ("fields"@, JsonModel::Array(fields)),
            ("unique"@, JsonModel::Bool(unique)),
            ("description"@, description),
        ],
    )
}

/// A rule as JSON.
pub open spec fn rule_item(
    field: Seq<char>,
    rule_type: Seq<char>,
    value: JsonModel,
    description: JsonModel,
) -> JsonModel {
    JsonModel::Object(
        seq![
            ("field"@, JsonModel::String(field)),
            ("rule_type"@, JsonModel::String(rule_type)),
            ("value"@, value),
            ("description"@, description),
        ],
    )
}

/// A collection as JSON, over the JSON of its fields, indexes and rules.
pub open spec fn collection_item(
    name: Seq<char>,
    description: JsonModel,
    fields: Seq<JsonModel>,
    indexes: Seq<JsonModel>,
    rules: Seq<JsonModel>,
) -> JsonModel {
    JsonModel::Object(
        seq![
            ("name"@, JsonModel::String(name)),
            ("description"@, description),
            ("fields"@, JsonModel::Array(fields)),
            ("indexes"@, JsonModel::Array(indexes)),
            ("validation_rules"@, JsonModel::Array(rules)),
        ],
    )
}

/// A schema file as JSON, over its collections, each under its key.
pub open spec fn schema_item(version: Seq<char>, collections: Seq<(Seq<char>, JsonModel)>) -> JsonModel {
    JsonModel::Object(
        seq![
            ("version"@, JsonModel::String(version)),
            ("collections"@, JsonModel::Object(collections)),
        ],
    )
}

/// The JSON that is written for a field of a schema file.
pub open spec fn field_json(f: JsonField) -> JsonModel {
    field_item(
        f.name@,
        f.field_type@,
        f.required,
        optional_value_json(f.default_value),
        optional_text_json(f.description),
    )
}

/// The JSON that is written for a field of an index.
pub open spec fn index_field_json(f: JsonIndexField) -> JsonModel {
    index_field_item(f.field_path@, f.order@)
}

/// The JSON that is written for the fields of an index, in order.
pub open spec fn index_fields_json(fields: Seq<JsonIndexField>) -> Seq<JsonModel> {
    Seq::new(fields.len(), |i: int| index_field_json(fields[i]))
}

/// The JSON that is written for an index.
pub open spec fn index_json(x: JsonIndex) -> JsonModel {
    index_item(index_fields_json(x.fields@), x.unique, optional_text_json(x.description))
}

/// The JSON that is written for a rule.
pub open spec fn rule_json(r: JsonValidationRule) -> JsonModel {
    rule_item(r.field@, r.rule_type@, optional_value_json(r.value), optional_text_json(r.description))
}

/// The JSON that is written for fields, in order.
pub open spec fn fields_json(fields: Seq<JsonField>) -> Seq<JsonModel> {
    Seq::new(fields.len(), |i: int| field_json(fields[i]))
}

/// The JSON that is written for indexes, in order.
pub open spec fn indexes_json(indexes: Seq<JsonIndex>) -> Seq<JsonModel> {
    Seq::new(indexes.len(), |i: int| index_json(indexes[i]))
}

/// The JSON that is written for rules, in order.
pub open spec fn rules_json(rules: Seq<JsonValidationRule>) -> Seq<JsonModel> {
    Seq::new(rules.len(), |i: int| rule_json(rules[i]))
}

/// The JSON that is written for a collection.
pub open spec fn collection_json(c: JsonCollection) -> JsonModel {
    collection_item(
        c.name@,
        optional_text_json(c.description),
        fields_json(c.fields@),
        indexes_json(c.indexes@),
        rules_json(c.validation_rules@),
    )
}

/// The JSON that is written for the collections of a schema file, each
/// under its key and in the order in which the schema holds them.
pub open spec fn collection_members(collections: Seq<(String, JsonCollection)>) -> Seq<
    (Seq<char>, JsonModel),
> {
    Seq::new(collections.len(), |i: int| (collections[i].0@, collection_json(collections[i].1)))
}

/// The JSON that is written for a schema file: the version, then the collections.
pub open spec fn schema_file_json(s: JsonSchema) -> JsonModel {
    schema_item(s.version@, collection_members(s.collections@))
}

/// `j` is the JSON of the field `f`.
pub open spec fn is_field_json(f: JsonField, j: JsonModel) -> bool {
    &&& member_text(j, "name"@) == Some(f.name@)
    &&& member_text(j, "field_type"@) == Some(f.field_type@)
    &&& member_flag(j, "required"@) == Some(f.required)
    &&& member_unless_null(j, "default_value"@) == optional_json(f.default_value)
    &&& member_text(j, "description"@) == optional_view(f.description)
}

/// `j` is the JSON of the index field `f`.
pub open spec fn is_index_field_json(f: JsonIndexField, j: JsonModel) -> bool {
    &&& member_text(j, "field_path"@) == Some(f.field_path@)
    &&& member_text(j, "order"@) == Some(f.order@)
}

/// `j` is the JSON of the index `x`.
pub open spec fn is_index_json(x: JsonIndex, j: JsonModel) -> bool {
    &&& member_array(j, "fields"@) matches Some(items)
    &&& items.len() == x.fields@.len()
    &&& forall|i: int| 0 <= i < items.len() ==> is_index_field_json(x.fields@[i], #[trigger] items[i])
    &&& member_flag(j, "unique"@) == Some(x.unique)
    &&& member_text(j, "description"@) == optional_view(x.description)
}

/// `j` is the JSON of the rule `r`.
pub open spec fn is_rule_json(r: JsonValidationRule, j: JsonModel) -> bool {
    &&& member_text(j, "field"@) == Some(r.field@)
    &&& member_text(j, "rule_type"@) == Some(r.rule_type@)
    &&& member_unless_null(j, "value"@) == optional_json(r.value)
    &&& member_text(j, "description"@) == optional_view(r.description)
}

/// `j` is the JSON of the collection `c`.
pub open spec fn is_collection_json(c: JsonCollection, j: JsonModel) -> bool {
    &&& member_text(j, "name"@) == Some(c.name@)
    &&& member_text(j, "description"@) == optional_view(c.description)
    &&& member_array(j, "fields"@) matches Some(fields)
    &&& fields.len() == c.fields@.len()
    &&& forall|i: int| 0 <= i < fields.len() ==> is_field_json(c.fields@[i], #[trigger] fields[i])
    &&& member_array(j, "indexes"@) matches Some(indexes)
    &&& indexes.len() == c.indexes@.len()
    &&& forall|i: int| 0 <= i < indexes.len() ==> is_index_json(c.indexes@[i], #[trigger] indexes[i])
    &&& member_array(j, "validation_rules"@) matches Some(rules)
    &&& rules.len() == c.validation_rules@.len()
    &&& forall|i: int|
        0 <= i < rules.len() ==> is_rule_json(c.validation_rules@[i], #[trigger] rules[i])
}

/// `j` is the JSON of the schema `s`: the version, and one member of
/// `collections` for each collection, under its key.
pub open spec fn is_schema_json(s: JsonSchema, j: JsonModel) -> bool {
    &&& member_text(j, "version"@) == Some(s.version@)
    &&& member_object(j, "collections"@) matches Some(entries)
    &&& entries.len() == s.collections@.len()
    &&& forall|i: int|
        0 <= i < entries.len() ==> (#[trigger] entries[i]).0 == s.collections@[i].0@
            && is_collection_json(s.collections@[i].1, entries[i].1)
}

fn get_text(j: &JsonValue, key: &str) -> (r: Option<String>)
    ensures
        optional_view(r) == member_text(j@, key@),
{
    match j.get(key) {
        Some(JsonValue::String(s)) => Some(s.clone()),
        _ => None,
    }
}

fn get_flag(j: &JsonValue, key: &str) -> (r: Option<bool>)
    ensures
        r == member_flag(j@, key@),
{
    match j.get(key) {
        Some(JsonValue::Bool(b)) => Some(*b),
        _ => None,
    }
}

fn get_unless_null(j: &JsonValue, key: &str) -> (r: Option<JsonValue>)
    ensures
        optional_json(r) == member_unless_null(j@, key@),
{
    match j.get(key) {
        Some(JsonValue::Null) => None,
        Some(v) => Some(v.clone_value()),
        None => None,
    }
}

fn get_array<'a>(j: &'a JsonValue, key: &str) -> (r: Option<&'a Vec<JsonValue>>)
    ensures
        match r {
            Some(items) => member_array(j@, key@) == Some(values_view(items@)),
            None => member_array(j@, key@) is None,
        },
{
    match j.get(key) {
        Some(JsonValue::Array(items)) => {
            proof {
                lemma_view_array(*items);
            }
            Some(items)
        },
        _ => None,
    }
}

/// The failure of a reader that did not find the member `what`, or found
/// it with a value of another kind.
fn missing_field(what: &str) -> (r: FirebaseError)
    ensures
        r@ == crate::error::serde_error("missing field `"@ + what@ + "`"@),
{
    FirebaseError::SerdeError(concat3("missing field `", what, "`"))
}

impl JsonField {
    /// Reads a field of a schema file. `name`, `field_type` and `required`
    /// must be there; anything else is a `SerdeError`.
    pub fn from_json(j: &JsonValue) -> (r: Result<JsonField, FirebaseError>)
        ensures
            r is Ok <==> field_shape(j@),
            match r {
                Ok(f) => is_field_json(f, j@),
                Err(e) => e@.kind == ErrorKind::Serde,
            },
    {
        let name = match get_text(j, "name") {
            Some(s) => s,
            None => {
                return Err(missing_field("name"));
            },
        };
        let field_type = match get_text(j, "field_type") {
            Some(s) => s,
            None => {
                return Err(missing_field("field_type"));
            },
        };
        let required = match get_flag(j, "required") {
            Some(b) => b,
            None => {
                return Err(missing_field("required"));
            },
        };
        Ok(
            JsonField {
                name,
                field_type,
                required,
                default_value: get_unless_null(j, "default_value"),
                description: get_text(j, "description"),
            },
        )
    }
}

impl JsonIndexField {
    pub fn from_json(j: &JsonValue) -> (r: Result<JsonIndexField, FirebaseError>)
        ensures
            r is Ok <==> index_field_shape(j@),
            match r {
                Ok(f) => is_index_field_json(f, j@),
                Err(e) => e@.kind == ErrorKind::Serde,
            },
    {
        let field_path = match get_text(j, "field_path") {
            Some(s) => s,
            None => {
                return Err(missing_field("field_path"));
            },
        };
        let order = match get_text(j, "order") {
            Some(s) => s,
            None => {
                return Err(missing_field("order"));
            },
        };
        Ok(JsonIndexField { field_path, order })
    }
}

impl JsonIndex {
    pub fn from_json(j: &JsonValue) -> (r: Result<JsonIndex, FirebaseError>)
        ensures
            r is Ok <==> index_shape(j@),
            match r {
                Ok(x) => is_index_json(x, j@),
                Err(e) => e@.kind == ErrorKind::Serde,
            },
    {
        let items = match get_array(j, "fields") {
            Some(items) => items,
            None => {
                return Err(missing_field("fields"));
            },
        };
        let mut fields: Vec<JsonIndexField> = Vec::new();
        let mut i: usize = 0;
        while i < items.len()
            invariant
                i <= items.len(),
                fields@.len() == i,
                forall|k: int| 0 <= k < i ==> is_index_field_json(fields@[k], #[trigger] items@[k]@),
                forall|k: int| 0 <= k < i ==> index_field_shape((#[trigger] items@[k])@),
                member_array(j@, "fields"@) == Some(values_view(items@)),
            decreases items.len() - i,
        {
            match JsonIndexField::from_json(&items[i]) {
                Ok(f) => {
                    fields.push(f);
                },
                Err(e) => {
                    proof {
                        assert(values_view(items@)[i as int] == items@[i as int]@);
                        if index_shape(j@) {
                            let fields = member_array(j@, "fields"@)->0;
                            assert(index_field_shape(fields[i as int]));
                        }
                    }
                    return Err(e);
                },
            }
            i += 1;
        }
        proof {
            assert forall|k: int| 0 <= k < values_view(items@).len() implies index_field_shape(
                #[trigger] values_view(items@)[k],
            ) by {
                assert(values_view(items@)[k] == items@[k]@);
            }
        }
        let unique = match get_flag(j, "unique") {
            Some(b) => b,
            None => {
                return Err(missing_field("unique"));
            },
        };
        let r = JsonIndex { fields, unique, description: get_text(j, "description") };
        proof {
            let models = values_view(items@);
            assert forall|k: int| 0 <= k < models.len() implies is_index_field_json(
                r.fields@[k],
                #[trigger] models[k],
            ) by {
                assert(models[k] == items@[k]@);
            }
        }
        Ok(r)
    }
}

impl JsonValidationRule {
    pub fn from_json(j: &JsonValue) -> (r: Result<JsonValidationRule, FirebaseError>)
        ensures
            r is Ok <==> rule_shape(j@),
            match r {
                Ok(rule) => is_rule_json(rule, j@),
                Err(e) => e@.kind == ErrorKind::Serde,
            },
    {
        let field = match get_text(j, "field") {
            Some(s) => s,
            None => {
                return Err(missing_field("field"));
            },
        };
        let rule_type = match get_text(j, "rule_type") {
            Some(s) => s,
            None => {
                return Err(missing_field("rule_type"));
            },
        };
        Ok(
            JsonValidationRule {
                field,
                rule_type,
                value: get_unless_null(j, "value"),
                description: get_text(j, "description"),
            },
        )
    }
}

impl JsonCollection {
    pub fn from_json(j: &JsonValue) -> (r: Result<JsonCollection, FirebaseError>)
        ensures
            r is Ok <==> collection_shape(j@),
            match r {
                Ok(c) => is_collection_json(c, j@),
                Err(e) => e@.kind == ErrorKind::Serde,
            },
    {
        let name = match get_text(j, "name") {
            Some(s) => s,
            None => {
                return Err(missing_field("name"));
            },
        };
        let field_items = match get_array(j, "fields") {
            Some(items) => items,
            None => {
                return Err(missing_field("fields"));
            },
        };
        let index_items = match get_array(j, "indexes") {
            Some(items) => items,
            None => {
                return Err(missing_field("indexes"));
            },
        };
        let rule_items = match get_array(j, "validation_rules") {
            Some(items) => items,
            None => {
                return Err(missing_field("validation_rules"));
            },
        };
        let mut fields: Vec<JsonField> = Vec::new();
        let mut i: usize = 0;
        while i < field_items.len()
            invariant
                i <= field_items.len(),
                fields@.len() == i,
                forall|k: int| 0 <= k < i ==> is_field_json(fields@[k], #[trigger] field_items@[k]@),
                forall|k: int| 0 <= k < i ==> field_shape((#[trigger] field_items@[k])@),
                member_array(j@, "fields"@) == Some(values_view(field_items@)),
            decreases field_items.len() - i,
        {
            match JsonField::from_json(&field_items[i]) {
                Ok(f) => {
                    fields.push(f);
                },
                Err(e) => {
                    proof {
                        assert(values_view(field_items@)[i as int] == field_items@[i as int]@);
                        if collection_shape(j@) {
                            let fields = member_array(j@, "fields"@)->0;
                            assert(field_shape(fields[i as int]));
                        }
                    }
                    return Err(e);
                },
            }
            i += 1;
        }
        let mut indexes: Vec<JsonIndex> = Vec::new();
        let mut i: usize = 0;
        while i < index_items.len()
            invariant
                i <= index_items.len(),
                indexes@.len() == i,
                forall|k: int| 0 <= k < i ==> is_index_json(indexes@[k], #[trigger] index_items@[k]@),
                forall|k: int| 0 <= k < i ==> index_shape((#[trigger] index_items@[k])@),
                member_array(j@, "indexes"@) == Some(values_view(index_items@)),
            decreases index_items.len() - i,
        {
            match JsonIndex::from_json(&index_items[i]) {
                Ok(x) => {
                    indexes.push(x);
                },
                Err(e) => {
                    proof {
                        assert(values_view(index_items@)[i as int] == index_items@[i as int]@);
                        if collection_shape(j@) {
                            let indexes = member_array(j@, "indexes"@)->0;
                            assert(index_shape(indexes[i as int]));
                        }
                    }
                    return Err(e);
                },
            }
            i += 1;
        }
        let mut validation_rules: Vec<JsonValidationRule> = Vec::new();
        let mut i: usize = 0;
        while i < rule_items.len()
            invariant
                i <= rule_items.len(),
                validation_rules@.len() == i,
                forall|k: int|
                    0 <= k < i ==> is_rule_json(validation_rules@[k], #[trigger] rule_items@[k]@),
                forall|k: int| 0 <= k < i ==> rule_shape((#[trigger] rule_items@[k])@),
                member_array(j@, "validation_rules"@) == Some(values_view(rule_items@)),
            decreases rule_items.len() - i,
        {
            match JsonValidationRule::from_json(&rule_items[i]) {
                Ok(rule) => {
                    validation_rules.push(rule);
                },
                Err(e) => {
                    proof {
                        assert(values_view(rule_items@)[i as int] == rule_items@[i as int]@);
                        if collection_shape(j@) {
                            let rules = member_array(j@, "validation_rules"@)->0;
                            assert(rule_shape(rules[i as int]));
                        }
                    }
                    return Err(e);
                },
            }
            i += 1;
        }
        let r = JsonCollection {
            name,
            description: get_text(j, "description"),
            fields,
            indexes,
            validation_rules,
        };
        proof {
            let f = values_view(field_items@);
            assert forall|k: int| 0 <= k < f.len() implies is_field_json(
                r.fields@[k],
                #[trigger] f[k],
            ) && field_shape(f[k]) by {
                assert(f[k] == field_items@[k]@);
            }
            let x = values_view(index_items@);
            assert forall|k: int| 0 <= k < x.len() implies is_index_json(
                r.indexes@[k],
                #[trigger] x[k],
            ) && index_shape(x[k]) by {
                assert(x[k] == index_items@[k]@);
            }
            let v = values_view(rule_items@);
            assert forall|k: int| 0 <= k < v.len() implies is_rule_json(
                r.validation_rules@[k],
                #[trigger] v[k],
            ) && rule_shape(v[k]) by {
                assert(v[k] == rule_items@[k]@);
            }
        }
        Ok(r)
    }
}

impl JsonSchema {
    /// Reads a schema file. A file that lacks a member, or holds one of
    /// another kind, is a `SerdeError`.
    pub fn from_json(j: &JsonValue) -> (r: Result<JsonSchema, FirebaseError>)
        ensures
            r is Ok <==> schema_shape(j@),
            match r {
                Ok(s) => is_schema_json(s, j@),
                Err(e) => e@.kind == ErrorKind::Serde,
            },
    {
        let version = match get_text(j, "version") {
            Some(s) => s,
            None => {
                return Err(missing_field("version"));
            },
        };
        let entries = match j.get("collections") {
            Some(JsonValue::Object(entries)) => {
                proof {
                    lemma_view_object(*entries);
                }
                entries
            },
            _ => {
                return Err(missing_field("collections"));
            },
        };
        let mut collections: Vec<(String, JsonCollection)> = Vec::new();
        let mut i: usize = 0;
        while i < entries.len()
            invariant
                i <= entries.len(),
                collections@.len() == i,
                forall|k: int|
                    0 <= k < i ==> (#[trigger] collections@[k]).0@ == entries@[k].0@
                        && is_collection_json(collections@[k].1, entries@[k].1@),
                forall|k: int| 0 <= k < i ==> collection_shape((#[trigger] entries@[k]).1@),
                member_object(j@, "collections"@) == Some(entries_view(entries@)),
            decreases entries.len() - i,
        {
            match JsonCollection::from_json(&entries[i].1) {
                Ok(c) => {
                    collections.push((entries[i].0.clone(), c));
                },
                Err(e) => {
                    proof {
                        assert(entries_view(entries@)[i as int].1 == entries@[i as int].1@);
                        if schema_shape(j@) {
                            let members = member_object(j@, "collections"@)->0;
                            assert(collection_shape(members[i as int].1));
                        }
                    }
                    return Err(e);
                },
            }
            i += 1;
        }
        let r = JsonSchema { version, collections };
        proof {
            let m = entries_view(entries@);
            assert forall|k: int| 0 <= k < m.len() implies (#[trigger] m[k]).0
                == r.collections@[k].0@ && is_collection_json(r.collections@[k].1, m[k].1)
                && collection_shape(m[k].1) by {
                assert(m[k] == (entries@[k].0@, entries@[k].1@));
                assert(collections@[k].0@ == entries@[k].0@);
            }
        }
        Ok(r)
    }

    /// Reads the text of a schema file.
    pub fn from_text(text: &str) -> (r: Result<JsonSchema, FirebaseError>)
        ensures
            r is Ok <==> (json_of_text(text@) matches Some(j) && schema_shape(j)),
            match r {
                Ok(s) => json_of_text(text@) matches Some(j) && is_schema_json(s, j),
                Err(e) => e@.kind == ErrorKind::Serde,
            },
    {
        match parse_json(text) {
            Ok(j) => JsonSchema::from_json(&j),
            Err(e) => Err(e),
        }
    }
}


proof fn lemma_schema_keys()
    ensures
        "version"@ != "collections"@,
        "name"@ != "description"@,
        "name"@ != "fields"@,
        "name"@ != "indexes"@,
        "name"@ != "validation_rules"@,
        "description"@ != "fields"@,
        "description"@ != "indexes"@,
        "description"@ != "validation_rules"@,
        "fields"@ != "indexes"@,
        "fields"@ != "validation_rules"@,
        "indexes"@ != "validation_rules"@,
        "name"@ != "field_type"@,
        "name"@ != "required"@,
        "name"@ != "default_value"@,
        "field_type"@ != "required"@,
        "field_type"@ != "default_value"@,
        "field_type"@ != "description"@,
        "required"@ != "default_value"@,
        "required"@ != "description"@,
        "default_value"@ != "description"@,
        "fields"@ != "unique"@,
        "unique"@ != "description"@,
        "field_path"@ != "order"@,
        "field"@ != "rule_type"@,
        "field"@ != "value"@,
        "field"@ != "description"@,
        "rule_type"@ != "value"@,
        "rule_type"@ != "description"@,
        "value"@ != "description"@,
        "collection"@ != "exported_at"@,
        "collection"@ != "count"@,
        "collection"@ != "data"@,
        "exported_at"@ != "count"@,
        "exported_at"@ != "data"@,
        "count"@ != "data"@,
{
    reveal_strlit("version");
    reveal_strlit("collections");
    reveal_strlit("name");
    reveal_strlit("description");
    reveal_strlit("fields");
    reveal_strlit("indexes");
    reveal_strlit("validation_rules");
    reveal_strlit("field_type");
    reveal_strlit("required");
    reveal_strlit("default_value");
    reveal_strlit("unique");
    reveal_strlit("field_path");
    reveal_strlit("order");
    reveal_strlit("field");
    reveal_strlit("rule_type");
    reveal_strlit("value");
    reveal_strlit("collection");
    reveal_strlit("exported_at");
    reveal_strlit("count");
    reveal_strlit("data");
    assert("version"@.len() == 7 && "collections"@.len() == 11 && "name"@.len() == 4
        && "description"@.len() == 11 && "fields"@.len() == 6 && "indexes"@.len() == 7
        && "validation_rules"@.len() == 16 && "field_type"@.len() == 10 && "required"@.len() == 8
        && "default_value"@.len() == 13 && "unique"@.len() == 6 && "field_path"@.len() == 10
        && "order"@.len() == 5 && "field"@.len() == 5 && "rule_type"@.len() == 9 && "value"@.len()
        == 5 && "collection"@.len() == 10 && "exported_at"@.len() == 11 && "count"@.len() == 5
        && "data"@.len() == 4);
    assert("fields"@[0] == 'f' && "unique"@[0] == 'u');
    assert("field"@[0] == 'f' && "value"@[0] == 'v');
    assert("collection"@[0] == 'c' && "field_type"@[0] == 'f' && "field_path"@[0] == 'f');
    assert("count"@[0] == 'c' && "order"@[0] == 'o');
    assert("description"@[0] == 'd' && "exported_at"@[0] == 'e' && "collections"@[0] == 'c');
}

impl JsonIndexField {
    /// The JSON of the index field, as a schema file holds it.
    pub fn to_json(&self) -> (r: JsonValue)
        ensures
            r@ == index_field_json(*self),
            is_index_field_json(*self, r@),
    {
        let mut entries: Vec<(String, JsonValue)> = Vec::new();
        assert(entries_view(entries@) =~= Seq::empty());
        push_member(&mut entries, "field_path", JsonValue::String(self.field_path.clone()));
        push_member(&mut entries, "order", JsonValue::String(self.order.clone()));
        proof {
            lemma_schema_keys();
            let m = entries_view(entries@);
            assert(m =~= index_field_json(*self)->Object_0);
            lemma_index_of_key_is(m, "field_path"@, 0);
            lemma_index_of_key_is(m, "order"@, 1);
        }
        object_of(entries)
    }
}

impl JsonField {
    /// The JSON of the field, as a schema file holds it.
    pub fn to_json(&self) -> (r: JsonValue)
        ensures
            r@ == field_json(*self),
            is_field_json(*self, r@),
    {
        let mut entries: Vec<(String, JsonValue)> = Vec::new();
        assert(entries_view(entries@) =~= Seq::empty());
        push_member(&mut entries, "name", JsonValue::String(self.name.clone()));
        push_member(&mut entries, "field_type", JsonValue::String(self.field_type.clone()));
        push_member(&mut entries, "required", JsonValue::Bool(self.required));
        push_member(&mut entries, "default_value", value_or_null(&self.default_value));
        push_member(&mut entries, "description", text_or_null(&self.description));
        proof {
            lemma_schema_keys();
            let m = entries_view(entries@);
            assert(m =~= field_json(*self)->Object_0);
            lemma_index_of_key_is(m, "name"@, 0);
            lemma_index_of_key_is(m, "field_type"@, 1);
            lemma_index_of_key_is(m, "required"@, 2);
            lemma_index_of_key_is(m, "default_value"@, 3);
            lemma_index_of_key_is(m, "description"@, 4);
        }
        object_of(entries)
    }
}

impl JsonValidationRule {
    /// The JSON of the rule, as a schema file holds it.
    pub fn to_json(&self) -> (r: JsonValue)
        ensures
            r@ == rule_json(*self),
            is_rule_json(*self, r@),
    {
        let mut entries: Vec<(String, JsonValue)> = Vec::new();
        assert(entries_view(entries@) =~= Seq::empty());
        push_member(&mut entries, "field", JsonValue::String(self.field.clone()));
        push_member(&mut entries, "rule_type", JsonValue::String(self.rule_type.clone()));
        push_member(&mut entries, "value", value_or_null(&self.value));
        push_member(&mut entries, "description", text_or_null(&self.description));
        proof {
            lemma_schema_keys();
            let m = entries_view(entries@);
            assert(m =~= rule_json(*self)->Object_0);
            lemma_index_of_key_is(m, "field"@, 0);
            lemma_index_of_key_is(m, "rule_type"@, 1);
            lemma_index_of_key_is(m, "value"@, 2);
            lemma_index_of_key_is(m, "description"@, 3);
        }
        object_of(entries)
    }
}

impl JsonIndex {
    /// The JSON of the index, as a schema file holds it.
    pub fn to_json(&self) -> (r: JsonValue)
        ensures
            r@ == index_json(*self),
            is_index_json(*self, r@),
    {
        let mut items: Vec<JsonValue> = Vec::new();
        let mut i: usize = 0;
        while i < self.fields.len()
            invariant
                i <= self.fields.len(),
                items@.len() == i,
                forall|k: int| 0 <= k < i ==> is_index_field_json(self.fields@[k], #[trigger] items@[k]@),
                forall|k: int| 0 <= k < i ==> (#[trigger] items@[k])@ == index_field_json(self.fields@[k]),
            decreases self.fields.len() - i,
        {
            items.push(self.fields[i].to_json());
            i += 1;
        }
        let ghost models = values_view(items@);
        assert(models =~= index_fields_json(self.fields@));
        let mut entries: Vec<(String, JsonValue)> = Vec::new();
        assert(entries_view(entries@) =~= Seq::empty());
        push_member(&mut entries, "fields", array_of(items));
        push_member(&mut entries, "unique", JsonValue::Bool(self.unique));
        push_member(&mut entries, "description", text_or_null(&self.description));
        proof {
            lemma_schema_keys();
            let m = entries_view(entries@);
            assert(m =~= index_json(*self)->Object_0);
            lemma_index_of_key_is(m, "fields"@, 0);
            lemma_index_of_key_is(m, "unique"@, 1);
            lemma_index_of_key_is(m, "description"@, 2);
            assert forall|k: int| 0 <= k < models.len() implies is_index_field_json(
                self.fields@[k],
                #[trigger] models[k],
            ) by {
                assert(models[k] == items@[k]@);
            }
        }
        object_of(entries)
    }
}

impl JsonCollection {
    /// The JSON of the collection, as a schema file holds it.
    pub fn to_json(&self) -> (r: JsonValue)
        ensures
            r@ == collection_json(*self),
            is_collection_json(*self, r@),
    {
        let mut field_items: Vec<JsonValue> = Vec::new();
        let mut i: usize = 0;
        while i < self.fields.len()
            invariant
                i <= self.fields.len(),
                field_items@.len() == i,
                forall|k: int| 0 <= k < i ==> is_field_json(self.fields@[k], #[trigger] field_items@[k]@),
                forall|k: int| 0 <= k < i ==> (#[trigger] field_items@[k])@ == field_json(self.fields@[k]),
            decreases self.fields.len() - i,
        {
            field_items.push(self.fields[i].to_json());
            i += 1;
        }
        let mut index_items: Vec<JsonValue> = Vec::new();
        let mut i: usize = 0;
        while i < self.indexes.len()
            invariant
                i <= self.indexes.len(),
                index_items@.len() == i,
                forall|k: int| 0 <= k < i ==> is_index_json(self.indexes@[k], #[trigger] index_items@[k]@),
                forall|k: int| 0 <= k < i ==> (#[trigger] index_items@[k])@ == index_json(self.indexes@[k]),
            decreases self.indexes.len() - i,
        {
            index_items.push(self.indexes[i].to_json());
            i += 1;
        }
        let mut rule_items: Vec<JsonValue> = Vec::new();
        let mut i: usize = 0;
        while i < self.validation_rules.len()
            invariant
                i <= self.validation_rules.len(),
                rule_items@.len() == i,
                forall|k: int|
                    0 <= k < i ==> is_rule_json(self.validation_rules@[k], #[trigger] rule_items@[k]@),
                forall|k: int|
                    0 <= k < i ==> (#[trigger] rule_items@[k])@ == rule_json(self.validation_rules@[k]),
            decreases self.validation_rules.len() - i,
        {
            rule_items.push(self.validation_rules[i].to_json());
            i += 1;
        }
        let ghost f = values_view(field_items@);
        let ghost x = values_view(index_items@);
        let ghost v = values_view(rule_items@);
        proof {
            assert(f =~= fields_json(self.fields@));
            assert(x =~= indexes_json(self.indexes@));
            assert(v =~= rules_json(self.validation_rules@));
            assert forall|k: int| 0 <= k < f.len() implies is_field_json(
                self.fields@[k],
                #[trigger] f[k],
            ) by {
                assert(f[k] == field_items@[k]@);
            }
            assert forall|k: int| 0 <= k < x.len() implies is_index_json(
                self.indexes@[k],
                #[trigger] x[k],
            ) by {
                assert(x[k] == index_items@[k]@);
            }
            assert forall|k: int| 0 <= k < v.len() implies is_rule_json(
                self.validation_rules@[k],
                #[trigger] v[k],
            ) by {
                assert(v[k] == rule_items@[k]@);
            }
        }
        let mut entries: Vec<(String, JsonValue)> = Vec::new();
        assert(entries_view(entries@) =~= Seq::empty());
        push_member(&mut entries, "name", JsonValue::String(self.name.clone()));
        push_member(&mut entries, "description", text_or_null(&self.description));
        push_member(&mut entries, "fields", array_of(field_items));
        push_member(&mut entries, "indexes", array_of(index_items));
        push_member(&mut entries, "validation_rules", array_of(rule_items));
        proof {
            lemma_schema_keys();
            let m = entries_view(entries@);
            assert(m =~= collection_json(*self)->Object_0);
            lemma_index_of_key_is(m, "name"@, 0);
            lemma_index_of_key_is(m, "description"@, 1);
            lemma_index_of_key_is(m, "fields"@, 2);
            lemma_index_of_key_is(m, "indexes"@, 3);
            lemma_index_of_key_is(m, "validation_rules"@, 4);
        }
        object_of(entries)
    }
}

impl JsonSchema {
    /// The JSON of the schema, as a schema file holds it.
    pub fn to_json(&self) -> (r: JsonValue)
        ensures
            r@ == schema_file_json(*self),
            is_schema_json(*self, r@),
    {
        let mut members: Vec<(String, JsonValue)> = Vec::new();
        let mut i: usize = 0;
        while i < self.collections.len()
            invariant
                i <= self.collections.len(),
                members@.len() == i,
                forall|k: int|
                    0 <= k < i ==> (#[trigger] members@[k]).0@ == self.collections@[k].0@
                        && is_collection_json(self.collections@[k].1, members@[k].1@)
                        && members@[k].1@ == collection_json(self.collections@[k].1),
            decreases self.collections.len() - i,
        {
            members.push((self.collections[i].0.clone(), self.collections[i].1.to_json()));
            i += 1;
        }
        let ghost m = entries_view(members@);
        proof {
            assert forall|k: int| 0 <= k < m.len() implies (#[trigger] m[k]).0
                == self.collections@[k].0@ && is_collection_json(
                self.collections@[k].1,
                m[k].1,
            ) by {
                assert(m[k] == (members@[k].0@, members@[k].1@));
            }
        }
        let mut entries: Vec<(String, JsonValue)> = Vec::new();
        assert(entries_view(entries@) =~= Seq::empty());
        push_member(&mut entries, "version", JsonValue::String(self.version.clone()));
        push_member(&mut entries, "collections", object_of(members));
        proof {
            lemma_schema_keys();
            let e = entries_view(entries@);
            assert(m =~= collection_members(self.collections@));
            assert(e =~= schema_file_json(*self)->Object_0);
            lemma_index_of_key_is(e, "version"@, 0);
            lemma_index_of_key_is(e, "collections"@, 1);
        }
        object_of(entries)
    }
}


/// The declared type that a word of a schema file names.
pub open spec fn field_type_of(word: Seq<char>) -> Option<FieldType> {
    if word == "string"@ {
        Some(FieldType::String)
    } else if word == "integer"@ {
        Some(FieldType::Integer)
    } else if word == "double"@ {
        Some(FieldType::Double)
    } else if word == "boolean"@ {
        Some(FieldType::Boolean)
    } else if word == "timestamp"@ {
        Some(FieldType::Timestamp)
    } else if word == "map"@ {
        Some(FieldType::Mapping)
    } else if word == "array"@ {
        Some(FieldType::Array)
    } else if word == "reference"@ {
        Some(FieldType::Reference)
    } else {
        None
    }
}

/// The order that a word of a schema file names.
pub open spec fn index_order_of(word: Seq<char>) -> Option<IndexOrder> {
    if word == "asc"@ {
        Some(IndexOrder::Ascending)
    } else if word == "desc"@ {
        Some(IndexOrder::Descending)
    } else {
        None
    }
}

/// The view of a store value that may be absent.
pub open spec fn optional_wire(v: Option<FirestoreValue>) -> Option<crate::models::FirestoreModel> {
    match v {
        Some(v) => Some(v@),
        None => None,
    }
}

/// `field` is what the schema file says in `f`.
pub open spec fn declares_field(field: Field, f: JsonField, field_type: FieldType) -> bool {
    &&& field.name@ == f.name@
    &&& field.field_type == field_type
    &&& field.required == f.required
    &&& optional_wire(field.default_value) == match f.default_value {
        Some(v) => Some(wire_of_json(v@)),
        None => None,
    }
    &&& optional_view(field.description) == optional_view(f.description)
}

/// The length that a rule of a schema file gives: 0 where it gives none.
pub open spec fn length_bound(value: Option<JsonValue>) -> usize {
    match value {
        Some(JsonValue::Number(JsonNumber::Integer(i))) => if 0 <= i <= usize::MAX {
            i as usize
        } else if i < 0 {
            0
        } else {
            usize::MAX
        },
        Some(JsonValue::Number(JsonNumber::Unsigned(u))) => if u <= usize::MAX {
            u as usize
        } else {
            usize::MAX
        },
        _ => 0,
    }
}

/// The number that a rule of a schema file gives, as text: `0` where it gives none.
pub open spec fn number_bound(value: Option<JsonValue>) -> Seq<char> {
    match value {
        Some(JsonValue::Number(n)) => number_text(n.model()),
        _ => "0"@,
    }
}

/// The text that a rule of a schema file gives: empty where it gives none.
pub open spec fn text_bound(value: Option<JsonValue>) -> Seq<char> {
    match value {
        Some(JsonValue::String(s)) => s@,
        _ => Seq::empty(),
    }
}

/// `rule` is the rule that the word `word` names, with what `value` gives.
pub open spec fn is_rule_of(rule: ValidationRuleType, word: Seq<char>, value: Option<JsonValue>) -> bool {
    if word == "min_length"@ {
        rule matches ValidationRuleType::MinLength(n) && n == length_bound(value)
    } else if word == "max_length"@ {
        rule matches ValidationRuleType::MaxLength(n) && n == length_bound(value)
    } else if word == "min"@ {
        rule matches ValidationRuleType::Min(t) && t@ == number_bound(value)
    } else if word == "max"@ {
        rule matches ValidationRuleType::Max(t) && t@ == number_bound(value)
    } else if word == "regex"@ {
        rule matches ValidationRuleType::Regex(t) && t@ == text_bound(value)
    } else if word == "email"@ {
        rule is Email
    } else if word == "url"@ {
        rule is Url
    } else if word == "custom"@ {
        rule matches ValidationRuleType::Custom(t) && t@ == text_bound(value)
    } else {
        false
    }
}

/// Whether the word names a kind of rule.
pub open spec fn is_rule_word(word: Seq<char>) -> bool {
    word == "min_length"@ || word == "max_length"@ || word == "min"@ || word == "max"@ || word
        == "regex"@ || word == "email"@ || word == "url"@ || word == "custom"@
}

fn length_of(value: &Option<JsonValue>) -> (r: usize)
    ensures
        r == length_bound(*value),
{
    match value {
        Some(JsonValue::Number(JsonNumber::Integer(i))) => {
            if *i < 0 {
                0
            } else if (*i as u64) <= usize::MAX as u64 {
                *i as usize
            } else {
                usize::MAX
            }
        },
        Some(JsonValue::Number(JsonNumber::Unsigned(u))) => {
            if *u <= usize::MAX as u64 {
                *u as usize
            } else {
                usize::MAX
            }
        },
        _ => 0,
    }
}

fn number_of(value: &Option<JsonValue>) -> (r: String)
    ensures
        r@ == number_bound(*value),
{
    match value {
        Some(JsonValue::Number(n)) => match n {
            JsonNumber::Integer(i) => format_i64(*i),
            JsonNumber::Unsigned(u) => format_u64(*u),
            JsonNumber::Double(t) => t.clone(),
        },
        _ => String::from_str("0"),
    }
}

fn text_of(value: &Option<JsonValue>) -> (r: String)
    ensures
        r@ == text_bound(*value),
{
    match value {
        Some(JsonValue::String(s)) => s.clone(),
        _ => String::new(),
    }
}

fn clone_optional(s: &Option<String>) -> (r: Option<String>)
    ensures
        optional_view(r) == optional_view(*s),
{
    match s {
        Some(t) => Some(t.clone()),
        None => None,
    }
}

/// The declared field for a field of a schema file. A type that is none of
/// `string`, `integer`, `double`, `boolean`, `timestamp`, `map`, `array`,
/// `reference` is a `ConfigError`.
pub fn convert_from_json_field(f: &JsonField) -> (r: Result<Field, FirebaseError>)
    ensures
        match field_type_of(f.field_type@) {
            Some(t) => r matches Ok(field) && declares_field(field, *f, t),
            None => r matches Err(e) && e@ == config_error(
                "Unknown field type: "@ + f.field_type@,
            ),
        },
{
    let word = f.field_type.as_str();
    let field_type = if str_eq(word, "string") {
        FieldType::String
    } else if str_eq(word, "integer") {
        FieldType::Integer
    } else if str_eq(word, "double") {
        FieldType::Double
    } else if str_eq(word, "boolean") {
        FieldType::Boolean
    } else if str_eq(word, "timestamp") {
        FieldType::Timestamp
    } else if str_eq(word, "map") {
        FieldType::Mapping
    } else if str_eq(word, "array") {
        FieldType::Array
    } else if str_eq(word, "reference") {
        FieldType::Reference
    } else {
        return Err(FirebaseError::ConfigError(concat2("Unknown field type: ", word)));
    };
    let default_value = match &f.default_value {
        Some(v) => Some(json_value_to_firestore(v)),
        None => None,
    };
    Ok(
        Field {
            name: f.name.clone(),
            field_type,
            required: f.required,
            default_value,
            description: clone_optional(&f.description),
        },
    )
}

/// `index` is what the schema file says in `x`.
pub open spec fn declares_index(index: Index, x: JsonIndex) -> bool {
    &&& index.unique == x.unique
    &&& index.fields@.len() == x.fields@.len()
    &&& forall|i: int|
        0 <= i < x.fields@.len() ==> (#[trigger] index.fields@[i]).field_path@
            == x.fields@[i].field_path@ && Some(index.fields@[i].order) == index_order_of(
            x.fields@[i].order@,
        )
}

/// Index of the first field of the index whose order is neither `asc` nor `desc`.
pub open spec fn first_bad_order(fields: Seq<JsonIndexField>) -> Option<int>
    decreases fields.len(),
{
    if fields.len() == 0 {
        None
    } else {
        match first_bad_order(fields.drop_last()) {
            Some(i) => Some(i),
            None => if index_order_of(fields.last().order@) is None {
                Some(fields.len() - 1)
            } else {
                None
            },
        }
    }
}

/// The declared index for an index of a schema file. An order that is
/// neither `asc` nor `desc` is a `ConfigError`, for the first field that has one.
pub fn convert_from_json_index(x: &JsonIndex) -> (r: Result<Index, FirebaseError>)
    ensures
        match first_bad_order(x.fields@) {
            None => r matches Ok(index) && declares_index(index, *x),
            Some(i) => r matches Err(e) && e@ == config_error(
                "Unknown index order: "@ + x.fields@[i].order@,
            ),
        },
{
    let mut fields: Vec<IndexField> = Vec::new();
    let mut i: usize = 0;
    proof {
        assert(x.fields@.take(0) =~= Seq::empty());
    }
    while i < x.fields.len()
        invariant
            i <= x.fields.len(),
            fields@.len() == i,
            first_bad_order(x.fields@.take(i as int)) is None,
            forall|k: int|
                0 <= k < i ==> (#[trigger] fields@[k]).field_path@ == x.fields@[k].field_path@
                    && Some(fields@[k].order) == index_order_of(x.fields@[k].order@),
        decreases x.fields.len() - i,
    {
        let f = &x.fields[i];
        proof {
            let next = x.fields@.take(i + 1);
            assert(next.drop_last() =~= x.fields@.take(i as int));
            assert(next.last() == x.fields@[i as int]);
        }
        let order = if str_eq(f.order.as_str(), "asc") {
            IndexOrder::Ascending
        } else if str_eq(f.order.as_str(), "desc") {
            IndexOrder::Descending
        } else {
            proof {
                lemma_first_bad_order_prefix(x.fields@, i + 1);
            }
            return Err(
                FirebaseError::ConfigError(concat2("Unknown index order: ", f.order.as_str())),
            );
        };
        fields.push(IndexField { field_path: f.field_path.clone(), order });
        i += 1;
    }
    proof {
        assert(x.fields@.take(i as int) =~= x.fields@);
    }
    Ok(Index { fields, unique: x.unique })
}

/// A bad order found in a prefix of the fields is the first bad order of all.
pub proof fn lemma_first_bad_order_prefix(fields: Seq<JsonIndexField>, n: int)
    requires
        0 <= n <= fields.len(),
        first_bad_order(fields.take(n)) is Some,
    ensures
        first_bad_order(fields) == first_bad_order(fields.take(n)),
    decreases fields.len() - n,
{
    if n == fields.len() {
        assert(fields.take(n) =~= fields);
    } else {
        let rest = fields.drop_last();
        assert(rest.take(n) =~= fields.take(n));
        lemma_first_bad_order_prefix(rest, n);
    }
}

/// The declared rule for a rule of a schema file. A kind of rule that is
/// not known is a `ConfigError`.
pub fn convert_from_json_validation_rule(rule: &JsonValidationRule) -> (r: Result<
    ValidationRule,
    FirebaseError,
>)
    ensures
        if is_rule_word(rule.rule_type@) {
            r matches Ok(v) && v.field@ == rule.field@ && is_rule_of(
                v.rule,
                rule.rule_type@,
                rule.value,
            )
        } else {
            r matches Err(e) && e@ == config_error(
                "Unknown validation rule type: "@ + rule.rule_type@,
            )
        },
{
    proof {
        lemma_rule_words();
    }
    let word = rule.rule_type.as_str();
    let rule_type = if str_eq(word, "min_length") {
        ValidationRuleType::MinLength(length_of(&rule.value))
    } else if str_eq(word, "max_length") {
        ValidationRuleType::MaxLength(length_of(&rule.value))
    } else if str_eq(word, "min") {
        ValidationRuleType::Min(number_of(&rule.value))
    } else if str_eq(word, "max") {
        ValidationRuleType::Max(number_of(&rule.value))
    } else if str_eq(word, "regex") {
        ValidationRuleType::Regex(text_of(&rule.value))
    } else if str_eq(word, "email") {
        ValidationRuleType::Email
    } else if str_eq(word, "url") {
        ValidationRuleType::Url
    } else if str_eq(word, "custom") {
        ValidationRuleType::Custom(text_of(&rule.value))
    } else {
        return Err(
            FirebaseError::ConfigError(concat2("Unknown validation rule type: ", word)),
        );
    };
    Ok(ValidationRule { field: rule.field.clone(), rule: rule_type })
}

proof fn lemma_rule_words()
    ensures
        "min_length"@ != "max_length"@,
        "min_length"@ != "min"@,
        "min_length"@ != "max"@,
        "min_length"@ != "regex"@,
        "min_length"@ != "email"@,
        "min_length"@ != "url"@,
        "min_length"@ != "custom"@,
        "max_length"@ != "min"@,
        "max_length"@ != "max"@,
        "max_length"@ != "regex"@,
        "max_length"@ != "email"@,
        "max_length"@ != "url"@,
        "max_length"@ != "custom"@,
        "min"@ != "max"@,
        "min"@ != "regex"@,
        "min"@ != "email"@,
        "min"@ != "url"@,
        "min"@ != "custom"@,
        "max"@ != "regex"@,
        "max"@ != "email"@,
        "max"@ != "url"@,
        "max"@ != "custom"@,
        "regex"@ != "email"@,
        "regex"@ != "url"@,
        "regex"@ != "custom"@,
        "email"@ != "url"@,
        "email"@ != "custom"@,
        "url"@ != "custom"@,
{
    reveal_strlit("min_length");
    reveal_strlit("max_length");
    reveal_strlit("min");
    reveal_strlit("max");
    reveal_strlit("regex");
    reveal_strlit("email");
    reveal_strlit("url");
    reveal_strlit("custom");
    assert("min_length"@.len() == 10 && "max_length"@.len() == 10 && "min"@.len() == 3
        && "max"@.len() == 3 && "regex"@.len() == 5 && "email"@.len() == 5 && "url"@.len() == 3
        && "custom"@.len() == 6);
    assert("min_length"@[1] == 'i' && "max_length"@[1] == 'a');
    assert("min"@[1] == 'i' && "max"@[1] == 'a' && "url"@[1] == 'r');
    assert("regex"@[0] == 'r' && "email"@[0] == 'e');
}

/// `collection` is what the schema file says in `c`.
pub open spec fn declares_collection(collection: Collection, c: JsonCollection) -> bool {
    &&& collection.name@ == c.name@
    &&& collection.fields@.len() == c.fields@.len()
    &&& forall|i: int|
        0 <= i < c.fields@.len() ==> field_type_of((#[trigger] c.fields@[i]).field_type@) is Some
            && declares_field(
            collection.fields@[i],
            c.fields@[i],
            field_type_of(c.fields@[i].field_type@)->0,
        )
    &&& collection.indexes@.len() == c.indexes@.len()
    &&& forall|i: int|
        0 <= i < c.indexes@.len() ==> declares_index(
            collection.indexes@[i],
            #[trigger] c.indexes@[i],
        )
    &&& collection.validation_rules@.len() == c.validation_rules@.len()
    &&& forall|i: int|
        0 <= i < c.validation_rules@.len() ==> collection.validation_rules@[i].field@ == (
        #[trigger] c.validation_rules@[i]).field@ && is_rule_of(
            collection.validation_rules@[i].rule,
            c.validation_rules@[i].rule_type@,
            c.validation_rules@[i].value,
        )
}

/// Everything in the collection of the schema file is of a known kind:
/// the types of the fields, the orders of the indexes, the kinds of the rules.
pub open spec fn all_known(c: JsonCollection) -> bool {
    &&& forall|i: int|
        0 <= i < c.fields@.len() ==> field_type_of((#[trigger] c.fields@[i]).field_type@) is Some
    &&& forall|i: int|
        0 <= i < c.indexes@.len() ==> first_bad_order((#[trigger] c.indexes@[i]).fields@) is None
    &&& forall|i: int|
        0 <= i < c.validation_rules@.len() ==> is_rule_word(
            (#[trigger] c.validation_rules@[i]).rule_type@,
        )
}

/// The declared collection for a collection of a schema file: a
/// `ConfigError` where the file holds something of a kind that is not known.
pub fn convert_from_json_collection(c: &JsonCollection) -> (r: Result<Collection, FirebaseError>)
    ensures
        match r {
            Ok(collection) => all_known(*c) && declares_collection(collection, *c),
            Err(e) => !all_known(*c) && e@.kind == ErrorKind::Config,
        },
{
    let mut fields: Vec<Field> = Vec::new();
    let mut i: usize = 0;
    while i < c.fields.len()
        invariant
            i <= c.fields.len(),
            fields@.len() == i,
            forall|k: int|
                0 <= k < i ==> field_type_of((#[trigger] c.fields@[k]).field_type@) is Some
                    && declares_field(
                    fields@[k],
                    c.fields@[k],
                    field_type_of(c.fields@[k].field_type@)->0,
                ),
        decreases c.fields.len() - i,
    {
        match convert_from_json_field(&c.fields[i]) {
            Ok(f) => {
                let ghost before = fields@;
                assert(field_type_of(c.fields@[i as int].field_type@) is Some);
                assert(declares_field(
                    f,
                    c.fields@[i as int],
                    field_type_of(c.fields@[i as int].field_type@)->0,
                ));
                fields.push(f);
                assert(forall|k: int| 0 <= k < i ==> fields@[k] == before[k]);
                assert(fields@[i as int] == f);
            },
            Err(e) => {
                assert(field_type_of(c.fields@[i as int].field_type@) is None);
                return Err(e);
            },
        }
        i += 1;
    }
    let mut indexes: Vec<Index> = Vec::new();
    let mut i: usize = 0;
    while i < c.indexes.len()
        invariant
            i <= c.indexes.len(),
            indexes@.len() == i,
            forall|k: int|
                0 <= k < i ==> first_bad_order((#[trigger] c.indexes@[k]).fields@) is None
                    && declares_index(indexes@[k], c.indexes@[k]),
        decreases c.indexes.len() - i,
    {
        match convert_from_json_index(&c.indexes[i]) {
            Ok(x) => {
                let ghost before = indexes@;
                assert(first_bad_order(c.indexes@[i as int].fields@) is None);
                assert(declares_index(x, c.indexes@[i as int]));
                indexes.push(x);
                assert(forall|k: int| 0 <= k < i ==> indexes@[k] == before[k]);
                assert(indexes@[i as int] == x);
            },
            Err(e) => {
                assert(first_bad_order(c.indexes@[i as int].fields@) is Some);
                return Err(e);
            },
        }
        i += 1;
    }
    let mut validation_rules: Vec<ValidationRule> = Vec::new();
    let mut i: usize = 0;
    while i < c.validation_rules.len()
        invariant
            i <= c.validation_rules.len(),
            validation_rules@.len() == i,
            forall|k: int|
                0 <= k < i ==> is_rule_word((#[trigger] c.validation_rules@[k]).rule_type@)
                    && validation_rules@[k].field@ == c.validation_rules@[k].field@
                    && is_rule_of(
                    validation_rules@[k].rule,
                    c.validation_rules@[k].rule_type@,
                    c.validation_rules@[k].value,
                ),
        decreases c.validation_rules.len() - i,
    {
        match convert_from_json_validation_rule(&c.validation_rules[i]) {
            Ok(v) => {
                validation_rules.push(v);
            },
            Err(e) => {
                assert(!is_rule_word(c.validation_rules@[i as int].rule_type@));
                return Err(e);
            },
        }
        i += 1;
    }
    Ok(Collection { name: c.name.clone(), fields, indexes, validation_rules })
}


/// Index of the first collection of the schema that holds something of a
/// kind that is not known.
pub open spec fn first_unknown(collections: Seq<(String, JsonCollection)>) -> Option<int>
    decreases collections.len(),
{
    if collections.len() == 0 {
        None
    } else {
        match first_unknown(collections.drop_last()) {
            Some(i) => Some(i),
            None => if all_known(collections.last().1) {
                None
            } else {
                Some(collections.len() - 1)
            },
        }
    }
}

pub proof fn lemma_first_unknown_prefix(collections: Seq<(String, JsonCollection)>, n: int)
    requires
        0 <= n <= collections.len(),
        first_unknown(collections.take(n)) is Some,
    ensures
        first_unknown(collections) == first_unknown(collections.take(n)),
    decreases collections.len() - n,
{
    if n == collections.len() {
        assert(collections.take(n) =~= collections);
    } else {
        let rest = collections.drop_last();
        assert(rest.take(n) =~= collections.take(n));
        lemma_first_unknown_prefix(rest, n);
    }
}

/// `declared` holds, in order, the declared collections for the first
/// collections of the schema file.
pub open spec fn declares_all(declared: Seq<Collection>, collections: Seq<(String, JsonCollection)>) -> bool {
    declared.len() <= collections.len() && forall|i: int|
        0 <= i < declared.len() ==> declares_collection(
            #[trigger] declared[i],
            collections[i].1,
        )
}

/// The text is that of a schema file.
pub open spec fn is_schema_text(text: Seq<char>) -> bool {
    json_of_text(text) matches Some(j) && schema_shape(j)
}

/// What defining the collections of a schema file, one after the other,
/// makes of the collections `before`. Where all that the file holds is of a
/// known kind, every collection of the file is defined and the result is `Ok`.
/// Otherwise the result is a `ConfigError`, and the collections that stand
/// before the first one with something unknown are defined.
pub open spec fn applied(
    before: Seq<Collection>,
    file: Seq<(String, JsonCollection)>,
    after: Seq<Collection>,
    r: Result<(), FirebaseError>,
) -> bool {
    match first_unknown(file) {
        None => r is Ok && exists|declared: Seq<Collection>|
            declared.len() == file.len() && declares_all(declared, file) && after
                == #[trigger] defined_all(before, declared),
        Some(i) => r matches Err(e) && e@.kind == ErrorKind::Config && exists|
            declared: Seq<Collection>,
        |
            declared.len() == i && declares_all(declared, file) && after == #[trigger] defined_all(
                before,
                declared,
            ),
    }
}

impl JsonSchemaManager {
    /// The collections that are defined, in the order in which their names first came.
    pub open spec fn collections(&self) -> Seq<Collection> {
        self.schemas().collections()
    }

    /// The schema manager that holds the collections.
    pub closed spec fn schemas(&self) -> SchemaManager {
        self.schema_manager
    }

    /// The client that the manager was made with.
    pub closed spec fn client_model(&self) -> FirebaseClient {
        self.client
    }

    /// A manager with no collection defined. Its schema manager speaks to
    /// the same store, with the same key.
    pub fn new(client: FirebaseClient) -> (r: Self)
        ensures
            r.collections() == Seq::<Collection>::empty(),
            r.client_model() == client,
            r.schemas().client_base_url() == client.base_url@,
            r.schemas().client_api_key() == client.api_key@,
    {
        Self { schema_manager: SchemaManager::new(client.clone_client()), client }
    }

    /// The schema manager that holds the collections.
    pub fn get_schema_manager(&self) -> (r: &SchemaManager)
        ensures
            *r == self.schemas(),
    {
        &self.schema_manager
    }

    /// The schema manager that holds the collections, to be changed in
    /// place: what is done to it is done to this manager's collections, and
    /// the client stays.
    pub fn get_schema_manager_mut(&mut self) -> (r: &mut SchemaManager)
        ensures
            *r == old(self).schemas(),
            final(self).schemas() == *final(r),
            final(self).client_model() == old(self).client_model(),
    {
        &mut self.schema_manager
    }

    /// The client that the manager was made with.
    pub fn get_client(&self) -> (r: &FirebaseClient)
        ensures
            *r == self.client_model(),
    {
        &self.client
    }

    /// Defines a collection, as `SchemaManager::define_collection` does.
    pub fn define_collection(&mut self, collection: Collection)
        ensures
            final(self).collections() == defined(old(self).collections(), collection),
    {
        self.schema_manager.define_collection(collection);
    }

    /// Defines every collection of a schema file, in the order of the file.
    /// Stops with a `ConfigError` at the first collection that holds something
    /// of a kind that is not known; the collections before it stay defined.
    pub fn apply_json_schema(&mut self, json_schema: &JsonSchema) -> (r: Result<(), FirebaseError>)
        ensures
            applied(
                old(self).collections(),
                json_schema.collections@,
                final(self).collections(),
                r,
            ),
    {
        let ghost mut declared: Seq<Collection> = Seq::empty();
        let mut i: usize = 0;
        proof {
            assert(json_schema.collections@.take(0) =~= Seq::empty());
        }
        while i < json_schema.collections.len()
            invariant
                i <= json_schema.collections.len(),
                declared.len() == i,
                declares_all(declared, json_schema.collections@),
                first_unknown(json_schema.collections@.take(i as int)) is None,
                self.collections() == defined_all(old(self).collections(), declared),
            decreases json_schema.collections.len() - i,
        {
            proof {
                let next = json_schema.collections@.take(i + 1);
                assert(next.drop_last() =~= json_schema.collections@.take(i as int));
                assert(next.last() == json_schema.collections@[i as int]);
            }
            match convert_from_json_collection(&json_schema.collections[i].1) {
                Ok(collection) => {
                    proof {
                        let more = declared.push(collection);
                        assert(more.drop_last() =~= declared);
                        declared = more;
                    }
                    self.schema_manager.define_collection(collection);
                },
                Err(e) => {
                    proof {
                        lemma_first_unknown_prefix(json_schema.collections@, i + 1);
                    }
                    return Err(e);
                },
            }
            i += 1;
        }
        proof {
            assert(json_schema.collections@.take(i as int) =~= json_schema.collections@);
        }
        Ok(())
    }

    /// Defines every collection of the schema file whose text is given, as
    /// `apply_json_schema` does for the schema that the text holds. A text that
    /// is no schema file is a `SerdeError`, and leaves the collections as they are.
    pub fn import_schema(&mut self, text: &str) -> (r: Result<(), FirebaseError>)
        ensures
            if is_schema_text(text@) {
                exists|schema: JsonSchema|
                    is_schema_json(schema, json_of_text(text@)->0) && #[trigger] applied(
                        old(self).collections(),
                        schema.collections@,
                        final(self).collections(),
                        r,
                    )
            } else {
                r matches Err(e) && e@.kind == ErrorKind::Serde && final(self).collections() == old(
                    self,
                ).collections()
            },
    {
        match JsonSchema::from_text(text) {
            Ok(schema) => {
                let r = self.apply_json_schema(&schema);
                proof {
                    assert(is_schema_json(schema, json_of_text(text@)->0));
                    assert(applied(
                        old(self).collections(),
                        schema.collections@,
                        self.collections(),
                        r,
                    ));
                }
                r
            },
            Err(e) => Err(e),
        }
    }

    /// The collections that are defined, as a schema file has them: none.
    /// Collections that were defined in code do not go out to a file.
    pub fn convert_to_json_schema(&self) -> (r: JsonSchema)
        ensures
            r.version@ == "1.0.0"@,
            r.collections@.len() == 0,
    {
        JsonSchema { version: String::from_str("1.0.0"), collections: Vec::new() }
    }
}

/// The word of a schema file for a kind of field that a sample showed.
pub open spec fn kind_word(field_type: Seq<char>) -> Seq<char> {
    if field_type == "string"@ || field_type == "integer"@ || field_type == "double"@ || field_type
        == "boolean"@ || field_type == "timestamp"@ || field_type == "array"@ || field_type
        == "map"@ {
        field_type
    } else if has_prefix(field_type, "Mixed("@) {
        "mixed"@
    } else {
        "unknown"@
    }
}

/// The default that a sample value suggests for a field of the kind `kind`.
pub open spec fn default_from_sample(kind: Seq<char>, sample: Seq<char>) -> Option<JsonModel> {
    if kind == "string"@ {
        Some(JsonModel::String(without_both(sample, '"')))
    } else if kind == "integer"@ {
        match parse_i64_spec(sample) {
            Some(i) => Some(JsonModel::Number(JsonNumberModel::Integer(i))),
            None => None,
        }
    } else if kind == "double"@ {
        match json_of_text(sample) {
            Some(JsonModel::Number(n)) => Some(JsonModel::Number(n)),
            _ => None,
        }
    } else if kind == "boolean"@ {
        if sample == "true"@ {
            Some(JsonModel::Bool(true))
        } else if sample == "false"@ {
            Some(JsonModel::Bool(false))
        } else {
            None
        }
    } else {
        None
    }
}

/// The default for a discovered field: what its first sample value
/// suggests, for a field that every document has.
pub open spec fn discovered_default(field: FieldInfo) -> Option<JsonModel> {
    if field.sample_values@.len() > 0 && field.is_required {
        default_from_sample(kind_word(field.field_type@), field.sample_values@[0]@)
    } else {
        None
    }
}

/// What a discovered field says of itself in a schema file.
pub open spec fn discovered_description(field: FieldInfo, total: usize) -> Seq<char> {
    "Found in "@ + decimal(field.frequency as nat) + "/"@ + decimal(total as nat)
        + " documents. Samples: "@ + joined(texts(field.sample_values@), ", "@)
}

/// `f` is the field of a schema file for the discovered field `field`.
pub open spec fn is_discovered_field(f: JsonField, field: FieldInfo, total: usize) -> bool {
    &&& f.name@ == field.name@
    &&& f.field_type@ == kind_word(field.field_type@)
    &&& f.required == field.is_required
    &&& match f.default_value {
        Some(v) => discovered_default(field) == Some(v@),
        None => discovered_default(field) is None,
    }
    &&& optional_view(f.description) == Some(discovered_description(field, total))
}

proof fn lemma_kind_words()
    ensures
        "string"@ != "integer"@,
        "string"@ != "double"@,
        "string"@ != "boolean"@,
        "integer"@ != "double"@,
        "integer"@ != "boolean"@,
        "double"@ != "boolean"@,
        "mixed"@ != "string"@,
        "mixed"@ != "integer"@,
        "mixed"@ != "double"@,
        "mixed"@ != "boolean"@,
        "unknown"@ != "string"@,
        "unknown"@ != "integer"@,
        "unknown"@ != "double"@,
        "unknown"@ != "boolean"@,
        "timestamp"@ != "string"@,
        "timestamp"@ != "integer"@,
        "timestamp"@ != "double"@,
        "timestamp"@ != "boolean"@,
        "array"@ != "string"@,
        "array"@ != "integer"@,
        "array"@ != "double"@,
        "array"@ != "boolean"@,
        "map"@ != "string"@,
        "map"@ != "integer"@,
        "map"@ != "double"@,
        "map"@ != "boolean"@,
{
    reveal_strlit("string");
    reveal_strlit("integer");
    reveal_strlit("double");
    reveal_strlit("boolean");
    reveal_strlit("mixed");
    reveal_strlit("unknown");
    reveal_strlit("timestamp");
    reveal_strlit("array");
    reveal_strlit("map");
    assert("string"@[0] == 's' && "integer"@[0] == 'i' && "double"@[0] == 'd' && "boolean"@[0]
        == 'b' && "mixed"@[0] == 'm' && "unknown"@[0] == 'u' && "timestamp"@[0] == 't'
        && "array"@[0] == 'a' && "map"@[0] == 'm');
}

fn kind_word_of(field_type: &str) -> (r: String)
    ensures
        r@ == kind_word(field_type@),
{
    if str_eq(field_type, "string") || str_eq(field_type, "integer") || str_eq(field_type, "double")
        || str_eq(field_type, "boolean") || str_eq(field_type, "timestamp") || str_eq(
        field_type,
        "array",
    ) || str_eq(field_type, "map") {
        String::from_str(field_type)
    } else if starts_with(field_type, "Mixed(") {
        String::from_str("mixed")
    } else {
        String::from_str("unknown")
    }
}

fn sample_default(kind: &str, sample: &str) -> (r: Option<JsonValue>)
    ensures
        match r {
            Some(v) => default_from_sample(kind@, sample@) == Some(v@),
            None => default_from_sample(kind@, sample@) is None,
        },
{
    proof {
        lemma_kind_words();
    }
    if str_eq(kind, "string") {
        Some(JsonValue::String(strip_both(sample, '"')))
    } else if str_eq(kind, "integer") {
        match parse_i64(sample) {
            Some(i) => Some(JsonValue::Number(JsonNumber::Integer(i))),
            None => None,
        }
    } else if str_eq(kind, "double") {
        match parse_json(sample) {
            Ok(JsonValue::Number(n)) => Some(JsonValue::Number(n)),
            _ => None,
        }
    } else if str_eq(kind, "boolean") {
        if str_eq(sample, "true") {
            Some(JsonValue::Bool(true))
        } else if str_eq(sample, "false") {
            Some(JsonValue::Bool(false))
        } else {
            None
        }
    } else {
        None
    }
}

/// The field of a schema file for a discovered field.
pub fn convert_field_info_to_json(field: &FieldInfo, total: usize) -> (r: JsonField)
    ensures
        is_discovered_field(r, *field, total),
{
    let field_type = kind_word_of(field.field_type.as_str());
    let default_value = if field.sample_values.len() > 0 && field.is_required {
        sample_default(field_type.as_str(), field.sample_values[0].as_str())
    } else {
        None
    };
    let mut description = concat3("Found in ", format_u64(field.frequency as u64).as_str(), "/");
    description.append(format_u64(total as u64).as_str());
    description.append(" documents. Samples: ");
    description.append(join(&field.sample_values, ", ").as_str());
    JsonField {
        name: field.name.clone(),
        field_type,
        required: field.is_required,
        default_value,
        description: Some(description),
    }
}

/// `c` is the collection of a schema file for the description `schema`:
/// its fields in order, no indexes and no rules.
pub open spec fn is_discovered_collection(c: JsonCollection, schema: CollectionSchema) -> bool {
    &&& c.name@ == schema.collection_name@
    &&& optional_view(c.description) == Some(
        "Discovered collection with "@ + decimal(schema.total_documents as nat) + " documents"@,
    )
    &&& c.fields@.len() == schema.fields@.len()
    &&& forall|i: int|
        0 <= i < schema.fields@.len() ==> is_discovered_field(
            c.fields@[i],
            #[trigger] schema.fields@[i],
            schema.total_documents,
        )
    &&& c.indexes@.len() == 0
    &&& c.validation_rules@.len() == 0
}

/// The collection of a schema file for the description of a collection.
pub fn convert_collection_schema_to_json(schema: &CollectionSchema) -> (r: JsonCollection)
    ensures
        is_discovered_collection(r, *schema),
{
    let mut fields: Vec<JsonField> = Vec::new();
    let mut i: usize = 0;
    while i < schema.fields.len()
        invariant
            i <= schema.fields.len(),
            fields@.len() == i,
            forall|k: int|
                0 <= k < i ==> is_discovered_field(
                    fields@[k],
                    #[trigger] schema.fields@[k],
                    schema.total_documents,
                ),
        decreases schema.fields.len() - i,
    {
        fields.push(convert_field_info_to_json(&schema.fields[i], schema.total_documents));
        i += 1;
    }
    JsonCollection {
        name: schema.collection_name.clone(),
        description: Some(
            concat3(
                "Discovered collection with ",
                format_u64(schema.total_documents as u64).as_str(),
                " documents",
            ),
        ),
        fields,
        indexes: Vec::new(),
        validation_rules: Vec::new(),
    }
}


/// Every field of the list has a type that is known.
pub open spec fn fields_known(fields: Seq<JsonField>) -> bool {
    forall|i: int| 0 <= i < fields.len() ==> field_type_of((#[trigger] fields[i]).field_type@) is Some
}

/// Every index of the list has orders that are known.
pub open spec fn indexes_known(indexes: Seq<JsonIndex>) -> bool {
    forall|i: int| 0 <= i < indexes.len() ==> first_bad_order((#[trigger] indexes[i]).fields@) is None
}

/// Every rule of the list is of a kind that is known.
pub open spec fn rules_known(rules: Seq<JsonValidationRule>) -> bool {
    forall|i: int| 0 <= i < rules.len() ==> is_rule_word((#[trigger] rules[i]).rule_type@)
}

impl FieldType {
    /// The word of a schema file for the type.
    pub open spec fn word_text(self) -> Seq<char> {
        match self {
            FieldType::String => "string"@,
            FieldType::Integer => "integer"@,
            FieldType::Double => "double"@,
            FieldType::Boolean => "boolean"@,
            FieldType::Timestamp => "timestamp"@,
            FieldType::Mapping => "map"@,
            FieldType::Array => "array"@,
            FieldType::Reference => "reference"@,
        }
    }

    /// The word of a schema file for the type.
    pub fn word(&self) -> (r: String)
        ensures
            r@ == self.word_text(),
            field_type_of(r@) == Some(*self),
    {
        proof {
            reveal_strlit("string");
            reveal_strlit("integer");
            reveal_strlit("double");
            reveal_strlit("boolean");
            reveal_strlit("timestamp");
            reveal_strlit("map");
            reveal_strlit("array");
            reveal_strlit("reference");
            assert("string"@[0] == 's' && "integer"@[0] == 'i' && "double"@[0] == 'd'
                && "boolean"@[0] == 'b' && "timestamp"@[0] == 't' && "map"@[0] == 'm'
                && "array"@[0] == 'a' && "reference"@[0] == 'r');
        }
        let word = match self {
            FieldType::String => "string",
            FieldType::Integer => "integer",
            FieldType::Double => "double",
            FieldType::Boolean => "boolean",
            FieldType::Timestamp => "timestamp",
            FieldType::Mapping => "map",
            FieldType::Array => "array",
            FieldType::Reference => "reference",
        };
        String::from_str(word)
    }
}

fn add_field(
    fields: &mut Vec<JsonField>,
    name: &str,
    field_type: FieldType,
    required: bool,
    default_value: Option<JsonValue>,
    description: &str,
)
    requires
        fields_known(old(fields)@),
    ensures
        fields_known(final(fields)@),
        fields_json(final(fields)@) == fields_json(old(fields)@).push(
            field_item(
                name@,
                field_type.word_text(),
                required,
                optional_value_json(default_value),
                JsonModel::String(description@),
            ),
        ),
{
    let f = JsonField {
        name: String::from_str(name),
        field_type: field_type.word(),
        required,
        default_value,
        description: Some(String::from_str(description)),
    };
    fields.push(f);
    proof {
        assert forall|i: int| 0 <= i < fields@.len() implies field_type_of(
            (#[trigger] fields@[i]).field_type@,
        ) is Some by {
            if i < old(fields)@.len() {
                assert(fields@[i] == old(fields)@[i]);
            }
        }
        assert(fields_json(fields@) =~= fields_json(old(fields)@).push(field_json(f)));
    }
}

fn add_rule(
    rules: &mut Vec<JsonValidationRule>,
    field: &str,
    rule_type: &str,
    value: Option<i64>,
    description: &str,
)
    requires
        rules_known(old(rules)@),
        is_rule_word(rule_type@),
    ensures
        rules_known(final(rules)@),
        rules_json(final(rules)@) == rules_json(old(rules)@).push(
            rule_item(field@, rule_type@, bound_json(value), JsonModel::String(description@)),
        ),
{
    let value = match value {
        Some(n) => Some(JsonValue::Number(JsonNumber::Integer(n))),
        None => None,
    };
    let r = JsonValidationRule {
        field: String::from_str(field),
        rule_type: String::from_str(rule_type),
        value,
        description: Some(String::from_str(description)),
    };
    rules.push(r);
    proof {
        assert forall|i: int| 0 <= i < rules@.len() implies is_rule_word(
            (#[trigger] rules@[i]).rule_type@,
        ) by {
            if i < old(rules)@.len() {
                assert(rules@[i] == old(rules)@[i]);
            }
        }
        assert(rules_json(rules@) =~= rules_json(old(rules)@).push(rule_json(r)));
    }
}

fn add_index_field(fields: &mut Vec<JsonIndexField>, field_path: &str, descending: bool)
    requires
        first_bad_order(old(fields)@) is None,
    ensures
        first_bad_order(final(fields)@) is None,
        index_fields_json(final(fields)@) == index_fields_json(old(fields)@).push(
            index_field_item(
                field_path@,
                if descending {
                    "desc"@
                } else {
                    "asc"@
                },
            ),
        ),
{
    let order = if descending {
        "desc"
    } else {
        "asc"
    };
    let f = JsonIndexField { field_path: String::from_str(field_path), order: String::from_str(order) };
    fields.push(f);
    proof {
        assert(fields@.drop_last() =~= old(fields)@);
        assert(index_fields_json(fields@) =~= index_fields_json(old(fields)@).push(
            index_field_json(f),
        ));
    }
}

fn add_index(indexes: &mut Vec<JsonIndex>, fields: Vec<JsonIndexField>, unique: bool, description: &str)
    requires
        indexes_known(old(indexes)@),
        first_bad_order(fields@) is None,
    ensures
        indexes_known(final(indexes)@),
        indexes_json(final(indexes)@) == indexes_json(old(indexes)@).push(
            index_item(index_fields_json(fields@), unique, JsonModel::String(description@)),
        ),
{
    let x = JsonIndex { fields, unique, description: Some(String::from_str(description)) };
    indexes.push(x);
    proof {
        assert forall|i: int| 0 <= i < indexes@.len() implies first_bad_order(
            (#[trigger] indexes@[i]).fields@,
        ) is None by {
            if i < old(indexes)@.len() {
                assert(indexes@[i] == old(indexes)@[i]);
            }
        }
        assert(indexes_json(indexes@) =~= indexes_json(old(indexes)@).push(index_json(x)));
    }
}

/// The bound of a rule of the example as JSON: `null` where the rule has none.
pub open spec fn bound_json(value: Option<i64>) -> JsonModel {
    match value {
        Some(n) => JsonModel::Number(JsonNumberModel::Integer(n)),
        None => JsonModel::Null,
    }
}

/// A field of the example as JSON: every field of the example has a description.
pub open spec fn described_field(
    name: Seq<char>,
    field_type: FieldType,
    required: bool,
    default_value: JsonModel,
    description: Seq<char>,
) -> JsonModel {
    field_item(name, field_type.word_text(), required, default_value, JsonModel::String(description))
}

/// A rule of the example as JSON.
pub open spec fn described_rule(
    field: Seq<char>,
    rule_type: Seq<char>,
    value: Option<i64>,
    description: Seq<char>,
) -> JsonModel {
    rule_item(field, rule_type, bound_json(value), JsonModel::String(description))
}

/// An index of the example as JSON.
pub open spec fn described_index(fields: Seq<JsonModel>, unique: bool, description: Seq<char>) -> JsonModel {
    index_item(fields, unique, JsonModel::String(description))
}

/// The users of the example, as the schema file holds them.
pub open spec fn example_users_json() -> JsonModel {
    collection_item(
        "users"@,
        JsonModel::String("User accounts"@),
        seq![
            described_field("id"@, FieldType::String, false, JsonModel::Null, "Auto-generated user ID"@),
            described_field("name"@, FieldType::String, true, JsonModel::Null, "User's full name"@),
            described_field("email"@, FieldType::String, true, JsonModel::Null, "User's email address"@),
            described_field(
                "age"@,
                FieldType::Integer,
                true,
                JsonModel::Number(JsonNumberModel::Integer(18)),
                "User's age"@,
            ),
            described_field("active"@, FieldType::Boolean, false, JsonModel::Bool(true), "Account status"@),
            described_field(
                "created_at"@,
                FieldType::Timestamp,
                true,
                JsonModel::Null,
                "Account creation timestamp"@,
            ),
            described_field(
                "tags"@,
                FieldType::Array,
                false,
                JsonModel::Array(Seq::empty()),
                "User tags"@,
            ),
            described_field("profile"@, FieldType::Mapping, false, JsonModel::Null, "User profile data"@),
        ],
        seq![
            described_index(seq![index_field_item("email"@, "asc"@)], true, "Unique email index"@),
            described_index(
                seq![index_field_item("active"@, "asc"@), index_field_item("created_at"@, "desc"@)],
                false,
                "Active users by creation date"@,
            ),
        ],
        seq![
            described_rule("email"@, "email"@, None, "Must be valid email format"@),
            described_rule("age"@, "min"@, Some(13), "Minimum age 13"@),
            described_rule("age"@, "max"@, Some(120), "Maximum age 120"@),
            described_rule("name"@, "min_length"@, Some(2), "Name must be at least 2 characters"@),
            described_rule("name"@, "max_length"@, Some(100), "Name must be at most 100 characters"@),
        ],
    )
}

/// The posts of the example, as the schema file holds them.
pub open spec fn example_posts_json() -> JsonModel {
    collection_item(
        "posts"@,
        JsonModel::String("User posts"@),
        seq![
            described_field("title"@, FieldType::String, true, JsonModel::Null, "Post title"@),
            described_field("content"@, FieldType::String, true, JsonModel::Null, "Post content"@),
            described_field("author_id"@, FieldType::String, true, JsonModel::Null, "Reference to user ID"@),
            described_field(
                "published"@,
                FieldType::Boolean,
                false,
                JsonModel::Bool(false),
                "Publication status"@,
            ),
            described_field(
                "created_at"@,
                FieldType::Timestamp,
                true,
                JsonModel::Null,
                "Creation timestamp"@,
            ),
        ],
        seq![
            described_index(
                seq![index_field_item("author_id"@, "asc"@), index_field_item("published"@, "asc"@)],
                false,
                "Posts by author and publication status"@,
            ),
        ],
        seq![
            described_rule("title"@, "min_length"@, Some(5), "Title must be at least 5 characters"@),
            described_rule("title"@, "max_length"@, Some(200), "Title must be at most 200 characters"@),
            described_rule(
                "content"@,
                "min_length"@,
                Some(10),
                "Content must be at least 10 characters"@,
            ),
        ],
    )
}

/// The example, as the schema file holds it: version 1.0.0, the users and the posts.
pub open spec fn example_schema_json() -> JsonModel {
    schema_item(
        "1.0.0"@,
        seq![("users"@, example_users_json()), ("posts"@, example_posts_json())],
    )
}

fn example_users() -> (r: JsonCollection)
    ensures
        collection_json(r) == example_users_json(),
        all_known(r),
{
    let mut fields: Vec<JsonField> = Vec::new();
    assert(fields_json(fields@) =~= Seq::empty());
    add_field(&mut fields, "id", FieldType::String, false, None, "Auto-generated user ID");
    add_field(&mut fields, "name", FieldType::String, true, None, "User's full name");
    add_field(&mut fields, "email", FieldType::String, true, None, "User's email address");
    add_field(
        &mut fields,
        "age",
        FieldType::Integer,
        true,
        Some(JsonValue::Number(JsonNumber::Integer(18))),
        "User's age",
    );
    add_field(
        &mut fields,
        "active",
        FieldType::Boolean,
        false,
        Some(JsonValue::Bool(true)),
        "Account status",
    );
    add_field(
        &mut fields,
        "created_at",
        FieldType::Timestamp,
        true,
        None,
        "Account creation timestamp",
    );
    let no_tags: Vec<JsonValue> = Vec::new();
    assert(values_view(no_tags@) =~= Seq::empty());
    add_field(&mut fields, "tags", FieldType::Array, false, Some(array_of(no_tags)), "User tags");
    add_field(&mut fields, "profile", FieldType::Mapping, false, None, "User profile data");
    let mut indexes: Vec<JsonIndex> = Vec::new();
    assert(indexes_json(indexes@) =~= Seq::empty());
    let mut by_email: Vec<JsonIndexField> = Vec::new();
    assert(index_fields_json(by_email@) =~= Seq::empty());
    add_index_field(&mut by_email, "email", false);
    assert(index_fields_json(by_email@) =~= seq![index_field_item("email"@, "asc"@)]);
    add_index(&mut indexes, by_email, true, "Unique email index");
    let mut by_activity: Vec<JsonIndexField> = Vec::new();
    assert(index_fields_json(by_activity@) =~= Seq::empty());
    add_index_field(&mut by_activity, "active", false);
    add_index_field(&mut by_activity, "created_at", true);
    assert(index_fields_json(by_activity@) =~= seq![
        index_field_item("active"@, "asc"@),
        index_field_item("created_at"@, "desc"@),
    ]);
    add_index(&mut indexes, by_activity, false, "Active users by creation date");
    let mut rules: Vec<JsonValidationRule> = Vec::new();
    assert(rules_json(rules@) =~= Seq::empty());
    add_rule(&mut rules, "email", "email", None, "Must be valid email format");
    add_rule(&mut rules, "age", "min", Some(13), "Minimum age 13");
    add_rule(&mut rules, "age", "max", Some(120), "Maximum age 120");
    add_rule(&mut rules, "name", "min_length", Some(2), "Name must be at least 2 characters");
    add_rule(&mut rules, "name", "max_length", Some(100), "Name must be at most 100 characters");
    proof {
        let expected = example_users_json()->Object_0;
        assert(fields_json(fields@) =~= expected[2].1->Array_0);
        assert(indexes_json(indexes@) =~= expected[3].1->Array_0);
        assert(rules_json(rules@) =~= expected[4].1->Array_0);
    }
    JsonCollection {
        name: String::from_str("users"),
        description: Some(String::from_str("User accounts")),
        fields,
        indexes,
        validation_rules: rules,
    }
}

fn example_posts() -> (r: JsonCollection)
    ensures
        collection_json(r) == example_posts_json(),
        all_known(r),
{
    let mut fields: Vec<JsonField> = Vec::new();
    assert(fields_json(fields@) =~= Seq::empty());
    add_field(&mut fields, "title", FieldType::String, true, None, "Post title");
    add_field(&mut fields, "content", FieldType::String, true, None, "Post content");
    add_field(&mut fields, "author_id", FieldType::String, true, None, "Reference to user ID");
    add_field(
        &mut fields,
        "published",
        FieldType::Boolean,
        false,
        Some(JsonValue::Bool(false)),
        "Publication status",
    );
    add_field(&mut fields, "created_at", FieldType::Timestamp, true, None, "Creation timestamp");
    let mut indexes: Vec<JsonIndex> = Vec::new();
    assert(indexes_json(indexes@) =~= Seq::empty());
    let mut by_author: Vec<JsonIndexField> = Vec::new();
    assert(index_fields_json(by_author@) =~= Seq::empty());
    add_index_field(&mut by_author, "author_id", false);
    add_index_field(&mut by_author, "published", false);
    assert(index_fields_json(by_author@) =~= seq![
        index_field_item("author_id"@, "asc"@),
        index_field_item("published"@, "asc"@),
    ]);
    add_index(&mut indexes, by_author, false, "Posts by author and publication status");
    let mut rules: Vec<JsonValidationRule> = Vec::new();
    assert(rules_json(rules@) =~= Seq::empty());
    add_rule(&mut rules, "title", "min_length", Some(5), "Title must be at least 5 characters");
    add_rule(&mut rules, "title", "max_length", Some(200), "Title must be at most 200 characters");
    add_rule(
        &mut rules,
        "content",
        "min_length",
        Some(10),
        "Content must be at least 10 characters",
    );
    proof {
        let expected = example_posts_json()->Object_0;
        assert(fields_json(fields@) =~= expected[2].1->Array_0);
        assert(indexes_json(indexes@) =~= expected[3].1->Array_0);
        assert(rules_json(rules@) =~= expected[4].1->Array_0);
    }
    JsonCollection {
        name: String::from_str("posts"),
        description: Some(String::from_str("User posts")),
        fields,
        indexes,
        validation_rules: rules,
    }
}

/// A schema to start from: users and posts, with fields, indexes and rules.
/// The file that is written for it is `example_schema_json`. All that it
/// holds is of a known kind, so that it can be read back.
pub fn example_schema() -> (r: JsonSchema)
    ensures
        schema_file_json(r) == example_schema_json(),
        r.collections@.len() == 2,
        first_unknown(r.collections@) is None,
{
    let mut collections: Vec<(String, JsonCollection)> = Vec::new();
    collections.push((String::from_str("users"), example_users()));
    collections.push((String::from_str("posts"), example_posts()));
    proof {
        let one = collections@.drop_last();
        assert(one.drop_last() =~= Seq::empty());
        assert(first_unknown(one.drop_last()) is None);
        assert(one.last() == collections@[0]);
        assert(first_unknown(one) is None);
        assert(collection_members(collections@) =~= seq![
            ("users"@, example_users_json()),
            ("posts"@, example_posts_json()),
        ]);
    }
    JsonSchema { version: String::from_str("1.0.0"), collections }
}

/// The count that a JSON number gives, where it is one.
pub open spec fn count_of_json(j: Option<JsonModel>) -> Option<usize> {
    match j {
        Some(JsonModel::Number(JsonNumberModel::Integer(n))) => if 0 <= n <= usize::MAX {
            Some(n as usize)
        } else {
            None
        },
        Some(JsonModel::Number(JsonNumberModel::Unsigned(n))) => if i64::MAX < n <= usize::MAX {
            Some(n as usize)
        } else {
            None
        },
        _ => None,
    }
}

/// `j` has the members that an export file cannot do without.
pub open spec fn export_shape(j: JsonModel) -> bool {
    &&& member_text(j, "collection"@) is Some
    &&& member_text(j, "exported_at"@) is Some
    &&& count_of_json(j.member("count"@)) is Some
    &&& member_array(j, "data"@) is Some
}

/// The JSON that is written for an export: these members, in this order,
/// and no other.
pub open spec fn export_json(e: DataExport) -> JsonModel {
    JsonModel::Object(
        seq![
            ("collection"@, JsonModel::String(e.collection@)),
            ("exported_at"@, JsonModel::String(e.exported_at@)),
            ("count"@, count_model(e.count)),
            ("data"@, JsonModel::Array(values_view(e.data@))),
        ],
    )
}

/// `e` is the export that the JSON `j` holds.
pub open spec fn is_export_json(e: DataExport, j: JsonModel) -> bool {
    &&& member_text(j, "collection"@) == Some(e.collection@)
    &&& member_text(j, "exported_at"@) == Some(e.exported_at@)
    &&& j.member("count"@) == Some(count_model(e.count))
    &&& member_array(j, "data"@) == Some(values_view(e.data@))
}

impl DataExport {
    /// The JSON of the export, as an export file holds it.
    pub fn to_json(&self) -> (r: JsonValue)
        ensures
            r@ == export_json(*self),
            is_export_json(*self, r@),
    {
        let mut data: Vec<JsonValue> = Vec::new();
        let mut i: usize = 0;
        while i < self.data.len()
            invariant
                i <= self.data.len(),
                data@.len() == i,
                forall|k: int| 0 <= k < i ==> (#[trigger] data@[k])@ == self.data@[k]@,
            decreases self.data.len() - i,
        {
            data.push(self.data[i].clone_value());
            i += 1;
        }
        assert(values_view(data@) =~= values_view(self.data@));
        let mut entries: Vec<(String, JsonValue)> = Vec::new();
        assert(entries_view(entries@) =~= Seq::empty());
        push_member(&mut entries, "collection", JsonValue::String(self.collection.clone()));
        push_member(&mut entries, "exported_at", JsonValue::String(self.exported_at.clone()));
        push_member(&mut entries, "count", count_json(self.count));
        push_member(&mut entries, "data", array_of(data));
        proof {
            lemma_schema_keys();
            let m = entries_view(entries@);
            assert(m =~= export_json(*self)->Object_0);
            lemma_index_of_key_is(m, "collection"@, 0);
            lemma_index_of_key_is(m, "exported_at"@, 1);
            lemma_index_of_key_is(m, "count"@, 2);
            lemma_index_of_key_is(m, "data"@, 3);
        }
        object_of(entries)
    }

    /// Reads an export file. `collection`, `exported_at`, `count` and `data`
    /// must be there, `count` as a number that is no less than zero;
    /// anything else is a `SerdeError`.
    pub fn from_json(j: &JsonValue) -> (r: Result<DataExport, FirebaseError>)
        ensures
            r is Ok <==> export_shape(j@),
            match r {
                Ok(e) => is_export_json(e, j@),
                Err(e) => e@.kind == ErrorKind::Serde,
            },
    {
        let collection = match get_text(j, "collection") {
            Some(s) => s,
            None => {
                return Err(missing_field("collection"));
            },
        };
        let exported_at = match get_text(j, "exported_at") {
            Some(s) => s,
            None => {
                return Err(missing_field("exported_at"));
            },
        };
        let count: usize = match j.get("count") {
            Some(JsonValue::Number(JsonNumber::Integer(n))) => {
                if *n >= 0 && (*n as u64) <= usize::MAX as u64 {
                    *n as usize
                } else {
                    return Err(missing_field("count"));
                }
            },
            Some(JsonValue::Number(JsonNumber::Unsigned(n))) => {
                if *n <= usize::MAX as u64 && *n > 9223372036854775807u64 {
                    *n as usize
                } else {
                    return Err(missing_field("count"));
                }
            },
            _ => {
                return Err(missing_field("count"));
            },
        };
        let items = match get_array(j, "data") {
            Some(items) => items,
            None => {
                return Err(missing_field("data"));
            },
        };
        let mut data: Vec<JsonValue> = Vec::new();
        let mut i: usize = 0;
        while i < items.len()
            invariant
                i <= items.len(),
                data@.len() == i,
                forall|k: int| 0 <= k < i ==> (#[trigger] data@[k])@ == items@[k]@,
            decreases items.len() - i,
        {
            data.push(items[i].clone_value());
            i += 1;
        }
        assert(values_view(data@) =~= values_view(items@));
        Ok(DataExport { collection, exported_at, count, data })
    }
}

/// The raw fields of the documents of a list response: for each document
/// that has a member `fields`, that member as it is.
pub open spec fn raw_fields(docs: Seq<JsonModel>) -> Seq<JsonModel>
    decreases docs.len(),
{
    if docs.len() == 0 {
        Seq::empty()
    } else {
        match docs.last().member("fields"@) {
            Some(fields) => raw_fields(docs.drop_last()).push(fields),
            None => raw_fields(docs.drop_last()),
        }
    }
}

/// The export of a collection from the response to a list request, stamped
/// with the time `exported_at`: the raw fields of each document, and their
/// number. Anything but success is a store error that carries the body; a
/// body that is no JSON is a `SerdeError`.
pub fn export_collection_raw(collection_name: &str, response: &HttpResponse, exported_at: &str) -> (r:
    Result<DataExport, FirebaseError>)
    ensures
        match r {
            Ok(e) => is_success(response.status) && (json_of_text(response.body@) matches Some(
                j,
            ) && e.collection@ == collection_name@ && e.exported_at@ == exported_at@ && values_view(
                e.data@,
            ) == raw_fields(member_items(j, "documents"@)) && e.count == e.data@.len()),
            Err(e) => if !is_success(response.status) {
                e@ == store_failure("Failed to list documents: "@, response.body@)
            } else {
                json_of_text(response.body@) is None && e@.kind == ErrorKind::Serde
            },
        },
{
    if !(200 <= response.status && response.status < 300) {
        return Err(
            FirebaseError::DatabaseError(
                concat2("Failed to list documents: ", response.body.as_str()),
            ),
        );
    }
    let j = match parse_json(response.body.as_str()) {
        Ok(j) => j,
        Err(e) => {
            return Err(e);
        },
    };
    let mut data: Vec<JsonValue> = Vec::new();
    proof {
        if let JsonModel::Object(entries) = j@ {
            lemma_index_of_key(entries, "documents"@);
        }
        assert(values_view(data@) =~= Seq::empty());
    }
    match j.get("documents") {
        Some(JsonValue::Array(docs)) => {
            proof {
                lemma_view_array(*docs);
                assert(values_view(docs@).take(0) =~= Seq::empty());
            }
            let mut i: usize = 0;
            while i < docs.len()
                invariant
                    i <= docs.len(),
                    values_view(data@) == raw_fields(values_view(docs@).take(i as int)),
                decreases docs.len() - i,
            {
                proof {
                    let next = values_view(docs@).take(i + 1);
                    assert(next.drop_last() =~= values_view(docs@).take(i as int));
                    assert(next.last() == docs@[i as int]@);
                }
                match docs[i].get("fields") {
                    Some(fields) => {
                        let ghost before = values_view(data@);
                        data.push(fields.clone_value());
                        assert(values_view(data@) =~= before.push(fields@));
                    },
                    None => {},
                }
                i += 1;
            }
            proof {
                assert(values_view(docs@).take(i as int) =~= values_view(docs@));
            }
        },
        _ => {
            proof {
                assert(member_items(j@, "documents"@).len() == 0);
            }
        },
    }
    Ok(
        DataExport {
            collection: String::from_str(collection_name),
            exported_at: String::from_str(exported_at),
            count: data.len(),
            data,
        },
    )
}

/// The file in which the backup of a collection is kept.
pub fn backup_file_name(backup_dir: &str, collection: &str) -> (r: String)
    ensures
        r@ == backup_dir@ + "/"@ + collection@ + "_backup.json"@,
{
    let mut name = concat3(backup_dir, "/", collection);
    name.append("_backup.json");
    name
}

} // verus!
