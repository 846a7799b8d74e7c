//! Declared collections as JSON: the shape in which a schema manager writes
//! its collections out, reads them back, and records them in the store.

use vstd::prelude::*;
use crate::error::{ErrorKind, FirebaseError};
use crate::firebase::{FirebaseClient, HttpRequest};
use crate::json::{
    array_of, count_json, count_model, entries_view, index_of_key, json_of_text,
    lemma_index_of_key_is, lemma_view_array, lemma_view_object, object_of, optional_text_json,
    parse_json,
    pretty_text_of_json, push_member, text_of_json, text_or_null, to_json_text,
    to_json_text_pretty, values_view, JsonModel, JsonNumber, JsonNumberModel, JsonValue,
};
use crate::models::{FieldsModel, FirestoreFields, FirestoreModel, FirestoreValue, ToFirestore};
use crate::schema::{
    defined, defined_all, Collection, Field, FieldType, Index, IndexField, IndexOrder, SchemaManager,
    ValidationRule, ValidationRuleType,
};
use crate::text::{concat3, format_i64, format_u64, str_eq};
use crate::time::Timestamp;
use crate::wire::{
    decode_value, decode_value_model, encode_value, encode_value_model, member_text,
    number_text, optional_view, tagged,
};

verus! {

/// The declared type of the name `name`.
pub open spec fn field_type_named(name: Seq<char>) -> Option<FieldType> {
    if name == "String"@ {
        Some(FieldType::String)
    } else if name == "Integer"@ {
        Some(FieldType::Integer)
    } else if name == "Double"@ {
        Some(FieldType::Double)
    } else if name == "Boolean"@ {
        Some(FieldType::Boolean)
    } else if name == "Timestamp"@ {
        Some(FieldType::Timestamp)
    } else if name == "Map"@ {
        Some(FieldType::Mapping)
    } else if name == "Array"@ {
        Some(FieldType::Array)
    } else if name == "Reference"@ {
        Some(FieldType::Reference)
    } else {
        None
    }
}

/// The order of the name `name`.
pub open spec fn index_order_named(name: Seq<char>) -> Option<IndexOrder> {
    if name == "Ascending"@ {
        Some(IndexOrder::Ascending)
    } else if name == "Descending"@ {
        Some(IndexOrder::Descending)
    } else {
        None
    }
}

proof fn lemma_type_names()
    ensures
        forall|t: FieldType| field_type_named(#[trigger] t.name()) == Some(t),
        forall|o: IndexOrder| index_order_named(#[trigger] o.name()) == Some(o),
{
    reveal_strlit("String");
    reveal_strlit("Integer");
    reveal_strlit("Double");
    reveal_strlit("Boolean");
    reveal_strlit("Timestamp");
    reveal_strlit("Map");
    reveal_strlit("Array");
    reveal_strlit("Reference");
    reveal_strlit("Ascending");
    reveal_strlit("Descending");
    assert("String"@[0] == 'S' && "Integer"@[0] == 'I' && "Double"@[0] == 'D' && "Boolean"@[0]
        == 'B' && "Timestamp"@[0] == 'T' && "Map"@[0] == 'M' && "Array"@[0] == 'A'
        && "Reference"@[0] == 'R' && "Ascending"@[0] == 'A' && "Descending"@[0] == 'D');
    assert("Ascending"@.len() == 9 && "Array"@.len() == 5);
}

/// The length that a JSON number gives, where it is a length.
pub open spec fn length_of_json(j: JsonModel) -> Option<usize> {
    match j {
        JsonModel::Number(JsonNumberModel::Integer(i)) => if 0 <= i <= usize::MAX {
            Some(i as usize)
        } else {
            None
        },
        JsonModel::Number(JsonNumberModel::Unsigned(u)) => if u <= usize::MAX {
            Some(u as usize)
        } else {
            None
        },
        _ => None,
    }
}

/// The one member of an object that has one member.
pub open spec fn only_member(j: JsonModel) -> Option<(Seq<char>, JsonModel)> {
    match j {
        JsonModel::Object(entries) => if entries.len() == 1 {
            Some(entries[0])
        } else {
            None
        },
        _ => None,
    }
}

/// `j` is the JSON of some kind of rule.
pub open spec fn rule_type_shape(j: JsonModel) -> bool {
    match j {
        JsonModel::String(s) => s == "Email"@ || s == "Url"@,
        JsonModel::Object(entries) => entries.len() == 1 && {
            let tag = entries[0].0;
            let inner = entries[0].1;
            if tag == "MinLength"@ || tag == "MaxLength"@ {
                length_of_json(inner) is Some
            } else if tag == "Min"@ || tag == "Max"@ {
                inner is Number
            } else if tag == "Regex"@ || tag == "Custom"@ {
                inner is String
            } else {
                false
            }
        },
        _ => false,
    }
}

/// `j` is the JSON of the kind of rule `rule`: the name of the kind alone
/// for `Email` and `Url`, else an object with the one member of that name.
pub open spec fn is_rule_type_json(rule: ValidationRuleType, j: JsonModel) -> bool {
    match rule {
        ValidationRuleType::Email => j == JsonModel::String("Email"@),
        ValidationRuleType::Url => j == JsonModel::String("Url"@),
        ValidationRuleType::MinLength(n) => only_member(j) matches Some((tag, inner)) && tag
            == "MinLength"@ && length_of_json(inner) == Some(n),
        ValidationRuleType::MaxLength(n) => only_member(j) matches Some((tag, inner)) && tag
            == "MaxLength"@ && length_of_json(inner) == Some(n),
        ValidationRuleType::Min(t) => only_member(j) matches Some((tag, inner)) && tag == "Min"@
            && (inner matches JsonModel::Number(n) && number_text(n) == t@),
        ValidationRuleType::Max(t) => only_member(j) matches Some((tag, inner)) && tag == "Max"@
            && (inner matches JsonModel::Number(n) && number_text(n) == t@),
        ValidationRuleType::Regex(t) => only_member(j) matches Some((tag, inner)) && tag
            == "Regex"@ && inner == JsonModel::String(t@),
        ValidationRuleType::Custom(t) => only_member(j) matches Some((tag, inner)) && tag
            == "Custom"@ && inner == JsonModel::String(t@),
    }
}

/// The model of a default value that may be absent.
pub open spec fn optional_default(v: Option<FirestoreValue>) -> Option<FirestoreModel> {
    match v {
        Some(v) => Some(v@),
        None => None,
    }
}

/// The default value that the member `default_value` denotes: none for
/// `null` and for a member that is not there.
pub open spec fn default_of_json(j: JsonModel) -> Option<FirestoreModel> {
    match j.member("default_value"@) {
        None => None,
        Some(JsonModel::Null) => None,
        Some(v) => Some(decode_value_model(v)),
    }
}

/// The truth value under the member `key`.
pub open spec fn flag_member(j: JsonModel, key: Seq<char>) -> Option<bool> {
    match j.member(key) {
        Some(JsonModel::Bool(b)) => Some(b),
        _ => None,
    }
}

/// The array under the member `key`.
pub open spec fn array_member(j: JsonModel, key: Seq<char>) -> Option<Seq<JsonModel>> {
    match j.member(key) {
        Some(JsonModel::Array(items)) => Some(items),
        _ => None,
    }
}

/// `j` has what a declared field cannot do without: a name, the name of
/// a type, and whether it is required.
pub open spec fn declared_field_shape(j: JsonModel) -> bool {
    &&& member_text(j, "name"@) is Some
    &&& member_text(j, "field_type"@) matches Some(t)
    &&& field_type_named(t) is Some
    &&& flag_member(j, "required"@) is Some
}

/// `j` has what the field of an index cannot do without.
pub open spec fn declared_index_field_shape(j: JsonModel) -> bool {
    &&& member_text(j, "field_path"@) is Some
    &&& member_text(j, "order"@) matches Some(o)
    &&& index_order_named(o) is Some
}

/// `j` has what an index cannot do without.
pub open spec fn declared_index_shape(j: JsonModel) -> bool {
    &&& array_member(j, "fields"@) matches Some(items)
    &&& forall|i: int| 0 <= i < items.len() ==> declared_index_field_shape(#[trigger] items[i])
    &&& flag_member(j, "unique"@) is Some
}

/// `j` has what a rule cannot do without.
pub open spec fn declared_rule_shape(j: JsonModel) -> bool {
    &&& member_text(j, "field"@) is Some
    &&& j.member("rule"@) matches Some(inner)
    &&& rule_type_shape(inner)
}

/// `j` has what a collection cannot do without, and so has every field,
/// index and rule in it.
pub open spec fn declared_collection_shape(j: JsonModel) -> bool {
    &&& member_text(j, "name"@) is Some
    &&& array_member(j, "fields"@) matches Some(fields)
    &&& array_member(j, "indexes"@) matches Some(indexes)
    &&& array_member(j, "validation_rules"@) matches Some(rules)
    &&& forall|i: int| 0 <= i < fields.len() ==> declared_field_shape(#[trigger] fields[i])
    &&& forall|i: int| 0 <= i < indexes.len() ==> declared_index_shape(#[trigger] indexes[i])
    &&& forall|i: int| 0 <= i < rules.len() ==> declared_rule_shape(#[trigger] rules[i])
}

/// `j` is an object whose members all have what a collection cannot do without.
pub open spec fn collections_shape(j: JsonModel) -> bool {
    &&& j matches JsonModel::Object(entries)
    &&& forall|i: int| 0 <= i < entries.len() ==> declared_collection_shape((#[trigger] entries[i]).1)
}

/// The JSON that is written for a kind of rule: the name of the kind alone
/// for `Email` and `Url`, else an object with the one member of that name.
pub open spec fn rule_type_json(rule: ValidationRuleType) -> JsonModel {
    match rule {
        ValidationRuleType::Email => JsonModel::String("Email"@),
        ValidationRuleType::Url => JsonModel::String("Url"@),
        ValidationRuleType::MinLength(n) => tagged("MinLength"@, count_model(n)),
        ValidationRuleType::MaxLength(n) => tagged("MaxLength"@, count_model(n)),
        ValidationRuleType::Min(t) => tagged(
            "Min"@,
            JsonModel::Number(JsonNumberModel::Double(t@)),
        ),
        ValidationRuleType::Max(t) => tagged(
            "Max"@,
            JsonModel::Number(JsonNumberModel::Double(t@)),
        ),
        ValidationRuleType::Regex(t) => tagged("Regex"@, JsonModel::String(t@)),
        ValidationRuleType::Custom(t) => tagged("Custom"@, JsonModel::String(t@)),
    }
}

/// The JSON that is written for a default value: the value in the store's
/// JSON shape, `null` where there is none.
pub open spec fn default_json(v: Option<FirestoreValue>) -> JsonModel {
    match v {
        Some(v) => encode_value_model(v@),
        None => JsonModel::Null,
    }
}

/// The JSON that is written for a declared field: these members, in this
/// order, and no other.
pub open spec fn declared_field_json(f: Field) -> JsonModel {
    JsonModel::Object(
        seq![
            ("name"@, JsonModel::String(f.name@)),
            ("field_type"@, JsonModel::String(f.field_type.name())),
            ("required"@, JsonModel::Bool(f.required)),
            ("default_value"@, default_json(f.default_value)),
            ("description"@, optional_text_json(f.description)),
        ],
    )
}

/// The JSON that is written for the field of an index.
pub open spec fn declared_index_field_json(f: IndexField) -> JsonModel {
    JsonModel::Object(
        seq![
            ("field_path"@, JsonModel::String(f.field_path@)),
            ("order"@, JsonModel::String(f.order.name())),
        ],
    )
}

/// The JSON that is written for an index.
pub open spec fn declared_index_json(x: Index) -> JsonModel {
    JsonModel::Object(
        seq![
            (
                "fields"@,
                JsonModel::Array(
                    Seq::new(x.fields@.len(), |i: int| declared_index_field_json(x.fields@[i])),
                ),
            ),
            ("unique"@, JsonModel::Bool(x.unique)),
        ],
    )
}

/// The JSON that is written for a rule.
pub open spec fn declared_rule_json(r: ValidationRule) -> JsonModel {
    JsonModel::Object(
        seq![("field"@, JsonModel::String(r.field@)), ("rule"@, rule_type_json(r.rule))],
    )
}

/// The JSON that is written for declared fields: one item for each, in order.
pub open spec fn declared_fields_json(fields: Seq<Field>) -> JsonModel {
    JsonModel::Array(Seq::new(fields.len(), |i: int| declared_field_json(fields[i])))
}

/// The JSON that is written for indexes: one item for each, in order.
pub open spec fn declared_indexes_json(indexes: Seq<Index>) -> JsonModel {
    JsonModel::Array(Seq::new(indexes.len(), |i: int| declared_index_json(indexes[i])))
}

/// The JSON that is written for rules: one item for each, in order.
pub open spec fn declared_rules_json(rules: Seq<ValidationRule>) -> JsonModel {
    JsonModel::Array(Seq::new(rules.len(), |i: int| declared_rule_json(rules[i])))
}

/// The JSON that is written for a declared collection.
pub open spec fn declared_collection_json(c: Collection) -> JsonModel {
    JsonModel::Object(
        seq![
            ("name"@, JsonModel::String(c.name@)),
            ("fields"@, declared_fields_json(c.fields@)),
            ("indexes"@, declared_indexes_json(c.indexes@)),
            ("validation_rules"@, declared_rules_json(c.validation_rules@)),
        ],
    )
}

/// The JSON that is written for declared collections: one member for each,
/// under its name and in order.
pub open spec fn declared_collections_json(collections: Seq<Collection>) -> JsonModel {
    JsonModel::Object(
        Seq::new(
            collections.len(),
            |i: int| (collections[i].name@, declared_collection_json(collections[i])),
        ),
    )
}

/// `j` is the JSON of the declared field `f`.
pub open spec fn is_declared_field_json(f: Field, j: JsonModel) -> bool {
    &&& member_text(j, "name"@) == Some(f.name@)
    &&& member_text(j, "field_type"@) == Some(f.field_type.name())
    &&& flag_member(j, "required"@) == Some(f.required)
    &&& default_of_json(j) == optional_default(f.default_value)
    &&& member_text(j, "description"@) == optional_view(f.description)
}

/// `j` is the JSON of the field `f` of an index.
pub open spec fn is_declared_index_field_json(f: IndexField, j: JsonModel) -> bool {
    &&& member_text(j, "field_path"@) == Some(f.field_path@)
    &&& member_text(j, "order"@) == Some(f.order.name())
}

/// `j` is the JSON of the index `x`.
pub open spec fn is_declared_index_json(x: Index, j: JsonModel) -> bool {
    &&& array_member(j, "fields"@) matches Some(items)
    &&& items.len() == x.fields@.len()
    &&& forall|i: int|
        0 <= i < items.len() ==> is_declared_index_field_json(x.fields@[i], #[trigger] items[i])
    &&& flag_member(j, "unique"@) == Some(x.unique)
}

/// `j` is the JSON of the rule `r`.
pub open spec fn is_declared_rule_json(r: ValidationRule, j: JsonModel) -> bool {
    &&& member_text(j, "field"@) == Some(r.field@)
    &&& j.member("rule"@) matches Some(inner)
    &&& is_rule_type_json(r.rule, inner)
}

/// `j` is the JSON of the collection `c`.
pub open spec fn is_declared_collection_json(c: Collection, j: JsonModel) -> bool {
    &&& member_text(j, "name"@) == Some(c.name@)
    &&& array_member(j, "fields"@) matches Some(fields)
    &&& fields.len() == c.fields@.len()
    &&& forall|i: int|
        0 <= i < fields.len() ==> is_declared_field_json(c.fields@[i], #[trigger] fields[i])
    &&& array_member(j, "indexes"@) matches Some(indexes)
    &&& indexes.len() == c.indexes@.len()
    &&& forall|i: int|
        0 <= i < indexes.len() ==> is_declared_index_json(c.indexes@[i], #[trigger] indexes[i])
    &&& array_member(j, "validation_rules"@) matches Some(rules)
    &&& rules.len() == c.validation_rules@.len()
    &&& forall|i: int|
        0 <= i < rules.len() ==> is_declared_rule_json(c.validation_rules@[i], #[trigger] rules[i])
}

/// `j` is the JSON of the collections: an object with one member for each
/// collection, under the collection's name.
pub open spec fn is_collections_json(collections: Seq<Collection>, j: JsonModel) -> bool {
    &&& j matches JsonModel::Object(entries)
    &&& entries.len() == collections.len()
    &&& forall|i: int|
        0 <= i < entries.len() ==> (#[trigger] entries[i]).0 == collections[i].name@
            && is_declared_collection_json(collections[i], entries[i].1)
}

proof fn lemma_member_names()
    ensures
        "name"@ != "field_type"@,
        "name"@ != "required"@,
        "name"@ != "default_value"@,
        "name"@ != "description"@,
        "field_type"@ != "required"@,
        "field_type"@ != "default_value"@,
        "field_type"@ != "description"@,
        "required"@ != "default_value"@,
        "required"@ != "description"@,
        "default_value"@ != "description"@,
        "field_path"@ != "order"@,
        "fields"@ != "unique"@,
        "field"@ != "rule"@,
        "name"@ != "fields"@,
        "name"@ != "indexes"@,
        "name"@ != "validation_rules"@,
        "fields"@ != "indexes"@,
        "fields"@ != "validation_rules"@,
        "indexes"@ != "validation_rules"@,
        "name"@ != "created_at"@,
        "name"@ != "fields"@,
        "created_at"@ != "fields"@,
        "created_at"@ != "indexes"@,
        "created_at"@ != "validation_rules"@,
{
    reveal_strlit("name");
    reveal_strlit("field_type");
    reveal_strlit("required");
    reveal_strlit("default_value");
    reveal_strlit("description");
    reveal_strlit("field_path");
    reveal_strlit("order");
    reveal_strlit("fields");
    reveal_strlit("unique");
    reveal_strlit("field");
    reveal_strlit("rule");
    reveal_strlit("indexes");
    reveal_strlit("validation_rules");
    reveal_strlit("created_at");
    assert("name"@.len() == 4 && "field_type"@.len() == 10 && "required"@.len() == 8
        && "default_value"@.len() == 13 && "description"@.len() == 11 && "field_path"@.len() == 10
        && "order"@.len() == 5 && "fields"@.len() == 6 && "unique"@.len() == 6 && "field"@.len()
        == 5 && "rule"@.len() == 4 && "indexes"@.len() == 7 && "validation_rules"@.len() == 16
        && "created_at"@.len() == 10);
    assert("fields"@[0] == 'f' && "unique"@[0] == 'u');
    assert("field_path"@[0] == 'f' && "created_at"@[0] == 'c');
}

fn tagged_value(tag: &str, value: JsonValue) -> (r: JsonValue)
    ensures
        r@ == tagged(tag@, value@),
{
    let mut entries: Vec<(String, JsonValue)> = Vec::new();
    assert(entries_view(entries@) =~= Seq::empty());
    push_member(&mut entries, tag, value);
    assert(entries_view(entries@) =~= seq![(tag@, value@)]);
    object_of(entries)
}

impl ValidationRuleType {
    /// The JSON of the kind of rule.
    pub fn to_json(&self) -> (r: JsonValue)
        ensures
            r@ == rule_type_json(*self),
            is_rule_type_json(*self, r@),
    {
        match self {
            ValidationRuleType::MinLength(n) => tagged_value("MinLength", count_json(*n)),
            ValidationRuleType::MaxLength(n) => tagged_value("MaxLength", count_json(*n)),
            ValidationRuleType::Min(t) => tagged_value(
                "Min",
                JsonValue::Number(JsonNumber::Double(t.clone())),
            ),
            ValidationRuleType::Max(t) => tagged_value(
                "Max",
                JsonValue::Number(JsonNumber::Double(t.clone())),
            ),
            ValidationRuleType::Regex(t) => tagged_value("Regex", JsonValue::String(t.clone())),
            ValidationRuleType::Email => JsonValue::String(String::from_str("Email")),
            ValidationRuleType::Url => JsonValue::String(String::from_str("Url")),
            ValidationRuleType::Custom(t) => tagged_value("Custom", JsonValue::String(t.clone())),
        }
    }
}

impl Field {
    /// The JSON of the declared field.
    pub fn to_json(&self) -> (r: JsonValue)
        ensures
            r@ == declared_field_json(*self),
            is_declared_field_json(*self, r@),
    {
        let default_value = match &self.default_value {
            Some(v) => {
                proof {
                    crate::wire::lemma_decode_encode(v@);
                    lemma_encoded_not_null(v@);
                }
                encode_value(v)
            },
            None => JsonValue::Null,
        };
        let mut entries: Vec<(String, JsonValue)> = Vec::new();
        assert(entries_view(entries@) =~= Seq::empty());
        push_member(&mut entries, "name", JsonValue::String(self.name.clone()));
        push_member(&mut entries, "field_type", JsonValue::String(self.field_type.to_name()));
        push_member(&mut entries, "required", JsonValue::Bool(self.required));
        push_member(&mut entries, "default_value", default_value);
        push_member(&mut entries, "description", text_or_null(&self.description));
        proof {
            lemma_member_names();
            let m = entries_view(entries@);
            assert(m =~= declared_field_json(*self)->Object_0);
            lemma_index_of_key_is(m, "name"@, 0);
            lemma_index_of_key_is(m, "field_type"@, 1);
            lemma_index_of_key_is(m, "required"@, 2);
            lemma_index_of_key_is(m, "default_value"@, 3);
            lemma_index_of_key_is(m, "description"@, 4);
        }
        object_of(entries)
    }
}

/// The JSON shape of a value of the store is never `null` itself.
proof fn lemma_encoded_not_null(v: FirestoreModel)
    ensures
        !(encode_value_model(v) is Null),
{
}

impl IndexField {
    /// The JSON of the field of an index.
    pub fn to_json(&self) -> (r: JsonValue)
        ensures
            r@ == declared_index_field_json(*self),
            is_declared_index_field_json(*self, r@),
    {
        let mut entries: Vec<(String, JsonValue)> = Vec::new();
        assert(entries_view(entries@) =~= Seq::empty());
        push_member(&mut entries, "field_path", JsonValue::String(self.field_path.clone()));
        push_member(&mut entries, "order", JsonValue::String(self.order.to_name()));
        proof {
            lemma_member_names();
            let m = entries_view(entries@);
            assert(m =~= declared_index_field_json(*self)->Object_0);
            lemma_index_of_key_is(m, "field_path"@, 0);
            lemma_index_of_key_is(m, "order"@, 1);
        }
        object_of(entries)
    }
}

impl Index {
    /// The JSON of the index.
    pub fn to_json(&self) -> (r: JsonValue)
        ensures
            r@ == declared_index_json(*self),
            is_declared_index_json(*self, r@),
    {
        let mut items: Vec<JsonValue> = Vec::new();
        let mut i: usize = 0;
        while i < self.fields.len()
            invariant
                i <= self.fields.len(),
                items@.len() == i,
                forall|k: int|
                    0 <= k < i ==> is_declared_index_field_json(
                        (#[trigger] self.fields@[k]),
                        items@[k]@,
                    ) && items@[k]@ == declared_index_field_json(self.fields@[k]),
            decreases self.fields.len() - i,
        {
            items.push(self.fields[i].to_json());
            i += 1;
        }
        let ghost models = values_view(items@);
        assert(models =~= Seq::new(
            self.fields@.len(),
            |i: int| declared_index_field_json(self.fields@[i]),
        ));
        let mut entries: Vec<(String, JsonValue)> = Vec::new();
        assert(entries_view(entries@) =~= Seq::empty());
        push_member(&mut entries, "fields", array_of(items));
        push_member(&mut entries, "unique", JsonValue::Bool(self.unique));
        proof {
            lemma_member_names();
            let m = entries_view(entries@);
            assert(m =~= declared_index_json(*self)->Object_0);
            lemma_index_of_key_is(m, "fields"@, 0);
            lemma_index_of_key_is(m, "unique"@, 1);
            assert forall|k: int| 0 <= k < models.len() implies is_declared_index_field_json(
                self.fields@[k],
                #[trigger] models[k],
            ) by {
                assert(models[k] == items@[k]@);
            }
        }
        object_of(entries)
    }
}

impl ValidationRule {
    /// The JSON of the rule.
    pub fn to_json(&self) -> (r: JsonValue)
        ensures
            r@ == declared_rule_json(*self),
            is_declared_rule_json(*self, r@),
    {
        let mut entries: Vec<(String, JsonValue)> = Vec::new();
        assert(entries_view(entries@) =~= Seq::empty());
        push_member(&mut entries, "field", JsonValue::String(self.field.clone()));
        push_member(&mut entries, "rule", self.rule.to_json());
        proof {
            lemma_member_names();
            let m = entries_view(entries@);
            assert(m =~= declared_rule_json(*self)->Object_0);
            lemma_index_of_key_is(m, "field"@, 0);
            lemma_index_of_key_is(m, "rule"@, 1);
        }
        object_of(entries)
    }
}

/// The JSON of the declared fields, in order.
pub fn fields_to_json(fields: &Vec<Field>) -> (r: JsonValue)
    ensures
        r@ == declared_fields_json(fields@),
        r@ matches JsonModel::Array(items) && items.len() == fields@.len() && forall|i: int|
            0 <= i < items.len() ==> is_declared_field_json(fields@[i], #[trigger] items[i]),
{
    let mut items: Vec<JsonValue> = Vec::new();
    let mut i: usize = 0;
    while i < fields.len()
        invariant
            i <= fields.len(),
            items@.len() == i,
            forall|k: int|
                0 <= k < i ==> is_declared_field_json((#[trigger] fields@[k]), items@[k]@)
                    && items@[k]@ == declared_field_json(fields@[k]),
        decreases fields.len() - i,
    {
        items.push(fields[i].to_json());
        i += 1;
    }
    let ghost models = values_view(items@);
    proof {
        assert(models =~= declared_fields_json(fields@)->Array_0);
        assert forall|k: int| 0 <= k < models.len() implies is_declared_field_json(
            fields@[k],
            #[trigger] models[k],
        ) by {
            assert(models[k] == items@[k]@);
        }
    }
    array_of(items)
}

/// The JSON of the indexes, in order.
pub fn indexes_to_json(indexes: &Vec<Index>) -> (r: JsonValue)
    ensures
        r@ == declared_indexes_json(indexes@),
        r@ matches JsonModel::Array(items) && items.len() == indexes@.len() && forall|i: int|
            0 <= i < items.len() ==> is_declared_index_json(indexes@[i], #[trigger] items[i]),
{
    let mut items: Vec<JsonValue> = Vec::new();
    let mut i: usize = 0;
    while i < indexes.len()
        invariant
            i <= indexes.len(),
            items@.len() == i,
            forall|k: int|
                0 <= k < i ==> is_declared_index_json((#[trigger] indexes@[k]), items@[k]@)
                    && items@[k]@ == declared_index_json(indexes@[k]),
        decreases indexes.len() - i,
    {
        items.push(indexes[i].to_json());
        i += 1;
    }
    let ghost models = values_view(items@);
    proof {
        assert(models =~= declared_indexes_json(indexes@)->Array_0);
        assert forall|k: int| 0 <= k < models.len() implies is_declared_index_json(
            indexes@[k],
            #[trigger] models[k],
        ) by {
            assert(models[k] == items@[k]@);
        }
    }
    array_of(items)
}

/// The JSON of the rules, in order.
pub fn rules_to_json(rules: &Vec<ValidationRule>) -> (r: JsonValue)
    ensures
        r@ == declared_rules_json(rules@),
        r@ matches JsonModel::Array(items) && items.len() == rules@.len() && forall|i: int|
            0 <= i < items.len() ==> is_declared_rule_json(rules@[i], #[trigger] items[i]),
{
    let mut items: Vec<JsonValue> = Vec::new();
    let mut i: usize = 0;
    while i < rules.len()
        invariant
            i <= rules.len(),
            items@.len() == i,
            forall|k: int|
                0 <= k < i ==> is_declared_rule_json((#[trigger] rules@[k]), items@[k]@)
                    && items@[k]@ == declared_rule_json(rules@[k]),
        decreases rules.len() - i,
    {
        items.push(rules[i].to_json());
        i += 1;
    }
    let ghost models = values_view(items@);
    proof {
        assert(models =~= declared_rules_json(rules@)->Array_0);
        assert forall|k: int| 0 <= k < models.len() implies is_declared_rule_json(
            rules@[k],
            #[trigger] models[k],
        ) by {
            assert(models[k] == items@[k]@);
        }
    }
    array_of(items)
}

impl Collection {
    /// The JSON of the collection.
    pub fn to_json(&self) -> (r: JsonValue)
        ensures
            r@ == declared_collection_json(*self),
            is_declared_collection_json(*self, r@),
    {
        let mut entries: Vec<(String, JsonValue)> = Vec::new();
        assert(entries_view(entries@) =~= Seq::empty());
        push_member(&mut entries, "name", JsonValue::String(self.name.clone()));
        push_member(&mut entries, "fields", fields_to_json(&self.fields));
        push_member(&mut entries, "indexes", indexes_to_json(&self.indexes));
        push_member(&mut entries, "validation_rules", rules_to_json(&self.validation_rules));
        proof {
            lemma_member_names();
            let m = entries_view(entries@);
            assert(m =~= declared_collection_json(*self)->Object_0);
            lemma_index_of_key_is(m, "name"@, 0);
            lemma_index_of_key_is(m, "fields"@, 1);
            lemma_index_of_key_is(m, "indexes"@, 2);
            lemma_index_of_key_is(m, "validation_rules"@, 3);
        }
        object_of(entries)
    }
}

/// The JSON of the collections: one member for each, under its name.
pub fn collections_to_json(collections: &Vec<Collection>) -> (r: JsonValue)
    ensures
        r@ == declared_collections_json(collections@),
        is_collections_json(collections@, r@),
{
    let mut members: Vec<(String, JsonValue)> = Vec::new();
    let mut i: usize = 0;
    while i < collections.len()
        invariant
            i <= collections.len(),
            members@.len() == i,
            forall|k: int|
                0 <= k < i ==> members@[k].0@ == (#[trigger] collections@[k]).name@
                    && is_declared_collection_json(collections@[k], members@[k].1@)
                    && members@[k].1@ == declared_collection_json(collections@[k]),
        decreases collections.len() - i,
    {
        members.push((collections[i].name.clone(), collections[i].to_json()));
        i += 1;
    }
    let ghost m = entries_view(members@);
    proof {
        assert forall|k: int| 0 <= k < m.len() implies (#[trigger] m[k]).0 == collections@[k].name@
            && is_declared_collection_json(collections@[k], m[k].1) by {
            assert(m[k] == (members@[k].0@, members@[k].1@));
        }
        assert(m =~= declared_collections_json(collections@)->Object_0);
    }
    object_of(members)
}


/// The failure of a reader for which the part `what` is not there, or is
/// not of the shape that it must have.
fn bad_shape(what: &str) -> (r: FirebaseError)
    ensures
        r@ == crate::error::serde_error("missing or malformed `"@ + what@ + "`"@),
{
    FirebaseError::SerdeError(concat3("missing or malformed `", what, "`"))
}

fn text_at(j: &JsonValue, key: &str) -> (r: Option<String>)
    ensures
        optional_view(r) == member_text(j@, key@),
{
    match j.get(key) {
        Some(JsonValue::String(s)) => Some(s.clone()),
        _ => None,
    }
}

fn flag_at(j: &JsonValue, key: &str) -> (r: Option<bool>)
    ensures
        r == flag_member(j@, key@),
{
    match j.get(key) {
        Some(JsonValue::Bool(b)) => Some(*b),
        _ => None,
    }
}

fn array_at<'a>(j: &'a JsonValue, key: &str) -> (r: Option<&'a Vec<JsonValue>>)
    ensures
        match r {
            Some(items) => array_member(j@, key@) == Some(values_view(items@)),
            None => array_member(j@, key@) is None,
        },
{
    match j.get(key) {
        Some(JsonValue::Array(items)) => {
            proof {
                lemma_view_array(*items);
            }
            Some(items)
        },
        _ => None,
    }
}

fn type_named(name: &str) -> (r: Option<FieldType>)
    ensures
        r == field_type_named(name@),
{
    if str_eq(name, "String") {
        Some(FieldType::String)
    } else if str_eq(name, "Integer") {
        Some(FieldType::Integer)
    } else if str_eq(name, "Double") {
        Some(FieldType::Double)
    } else if str_eq(name, "Boolean") {
        Some(FieldType::Boolean)
    } else if str_eq(name, "Timestamp") {
        Some(FieldType::Timestamp)
    } else if str_eq(name, "Map") {
        Some(FieldType::Mapping)
    } else if str_eq(name, "Array") {
        Some(FieldType::Array)
    } else if str_eq(name, "Reference") {
        Some(FieldType::Reference)
    } else {
        None
    }
}

fn order_named(name: &str) -> (r: Option<IndexOrder>)
    ensures
        r == index_order_named(name@),
{
    if str_eq(name, "Ascending") {
        Some(IndexOrder::Ascending)
    } else if str_eq(name, "Descending") {
        Some(IndexOrder::Descending)
    } else {
        None
    }
}

fn length_from(j: &JsonValue) -> (r: Option<usize>)
    ensures
        r == length_of_json(j@),
{
    match j {
        JsonValue::Number(JsonNumber::Integer(i)) => {
            if *i >= 0 && (*i as u64) <= usize::MAX as u64 {
                Some(*i as usize)
            } else {
                None
            }
        },
        JsonValue::Number(JsonNumber::Unsigned(u)) => {
            if *u <= usize::MAX as u64 {
                Some(*u as usize)
            } else {
                None
            }
        },
        _ => None,
    }
}

fn number_from(j: &JsonValue) -> (r: Option<String>)
    ensures
        match r {
            Some(t) => j@ matches JsonModel::Number(n) && number_text(n) == t@,
            None => !(j@ is Number),
        },
{
    match j {
        JsonValue::Number(n) => Some(
            match n {
                JsonNumber::Integer(i) => format_i64(*i),
                JsonNumber::Unsigned(u) => format_u64(*u),
                JsonNumber::Double(t) => t.clone(),
            },
        ),
        _ => None,
    }
}

impl ValidationRuleType {
    /// Reads the kind of a rule; a `SerdeError` for what is none.
    pub fn from_json(j: &JsonValue) -> (r: Result<ValidationRuleType, FirebaseError>)
        ensures
            r is Ok <==> rule_type_shape(j@),
            match r {
                Ok(rule) => is_rule_type_json(rule, j@),
                Err(e) => e@.kind == ErrorKind::Serde,
            },
    {
        match j {
            JsonValue::String(s) => {
                if str_eq(s.as_str(), "Email") {
                    Ok(ValidationRuleType::Email)
                } else if str_eq(s.as_str(), "Url") {
                    Ok(ValidationRuleType::Url)
                } else {
                    Err(bad_shape("rule"))
                }
            },
            JsonValue::Object(entries) => {
                proof {
                    lemma_view_object(*entries);
                }
                if entries.len() != 1 {
                    return Err(bad_shape("rule"));
                }
                let tag = entries[0].0.as_str();
                let inner = &entries[0].1;
                assert(only_member(j@) == Some((tag@, inner@)));
                if str_eq(tag, "MinLength") {
                    match length_from(inner) {
                        Some(n) => Ok(ValidationRuleType::MinLength(n)),
                        None => Err(bad_shape("MinLength")),
                    }
                } else if str_eq(tag, "MaxLength") {
                    match length_from(inner) {
                        Some(n) => Ok(ValidationRuleType::MaxLength(n)),
                        None => Err(bad_shape("MaxLength")),
                    }
                } else if str_eq(tag, "Min") {
                    match number_from(inner) {
                        Some(t) => Ok(ValidationRuleType::Min(t)),
                        None => Err(bad_shape("Min")),
                    }
                } else if str_eq(tag, "Max") {
                    match number_from(inner) {
                        Some(t) => Ok(ValidationRuleType::Max(t)),
                        None => Err(bad_shape("Max")),
                    }
                } else if str_eq(tag, "Regex") {
                    match inner {
                        JsonValue::String(t) => Ok(ValidationRuleType::Regex(t.clone())),
                        _ => Err(bad_shape("Regex")),
                    }
                } else if str_eq(tag, "Custom") {
                    match inner {
                        JsonValue::String(t) => Ok(ValidationRuleType::Custom(t.clone())),
                        _ => Err(bad_shape("Custom")),
                    }
                } else {
                    Err(bad_shape("rule"))
                }
            },
            _ => Err(bad_shape("rule")),
        }
    }
}

impl Field {
    /// Reads a declared field; a `SerdeError` for what is none.
    pub fn from_json(j: &JsonValue) -> (r: Result<Field, FirebaseError>)
        ensures
            r is Ok <==> declared_field_shape(j@),
            match r {
                Ok(f) => is_declared_field_json(f, j@),
                Err(e) => e@.kind == ErrorKind::Serde,
            },
    {
        proof {
            lemma_type_names();
        }
        let name = match text_at(j, "name") {
            Some(s) => s,
            None => {
                return Err(bad_shape("name"));
            },
        };
        let kind_name = match text_at(j, "field_type") {
            Some(s) => s,
            None => {
                return Err(bad_shape("field_type"));
            },
        };
        let field_type = match type_named(kind_name.as_str()) {
            Some(t) => t,
            None => {
                return Err(bad_shape("field_type"));
            },
        };
        proof {
            lemma_name_of_named(kind_name@);
        }
        let required = match flag_at(j, "required") {
            Some(b) => b,
            None => {
                return Err(bad_shape("required"));
            },
        };
        let default_value = match j.get("default_value") {
            None => None,
            Some(JsonValue::Null) => None,
            Some(v) => Some(decode_value(v)),
        };
        Ok(Field { name, field_type, required, default_value, description: text_at(j, "description") })
    }
}

/// A name that names a type is the name of that type.
proof fn lemma_name_of_named(name: Seq<char>)
    ensures
        field_type_named(name) matches Some(t) ==> t.name() == name,
        index_order_named(name) matches Some(o) ==> o.name() == name,
{
}

impl IndexField {
    /// Reads the field of an index; a `SerdeError` for what is none.
    pub fn from_json(j: &JsonValue) -> (r: Result<IndexField, FirebaseError>)
        ensures
            r is Ok <==> declared_index_field_shape(j@),
            match r {
                Ok(f) => is_declared_index_field_json(f, j@),
                Err(e) => e@.kind == ErrorKind::Serde,
            },
    {
        let field_path = match text_at(j, "field_path") {
            Some(s) => s,
            None => {
                return Err(bad_shape("field_path"));
            },
        };
        let order_name = match text_at(j, "order") {
            Some(s) => s,
            None => {
                return Err(bad_shape("order"));
            },
        };
        let order = match order_named(order_name.as_str()) {
            Some(o) => o,
            None => {
                return Err(bad_shape("order"));
            },
        };
        proof {
            lemma_name_of_named(order_name@);
        }
        Ok(IndexField { field_path, order })
    }
}

impl Index {
    /// Reads an index; a `SerdeError` for what is none.
    pub fn from_json(j: &JsonValue) -> (r: Result<Index, FirebaseError>)
        ensures
            r is Ok <==> declared_index_shape(j@),
            match r {
                Ok(x) => is_declared_index_json(x, j@),
                Err(e) => e@.kind == ErrorKind::Serde,
            },
    {
        let items = match array_at(j, "fields") {
            Some(items) => items,
            None => {
                return Err(bad_shape("fields"));
            },
        };
        let mut fields: Vec<IndexField> = Vec::new();
        let mut i: usize = 0;
        while i < items.len()
            invariant
                i <= items.len(),
                fields@.len() == i,
                forall|k: int|
                    0 <= k < i ==> is_declared_index_field_json(
                        fields@[k],
                        (#[trigger] items@[k])@,
                    ) && declared_index_field_shape(items@[k]@),
                array_member(j@, "fields"@) == Some(values_view(items@)),
            decreases items.len() - i,
        {
            match IndexField::from_json(&items[i]) {
                Ok(f) => {
                    fields.push(f);
                },
                Err(e) => {
                    proof {
                        assert(values_view(items@)[i as int] == items@[i as int]@);
                        if declared_index_shape(j@) {
                            let members = array_member(j@, "fields"@)->0;
                            assert(declared_index_field_shape(members[i as int]));
                        }
                    }
                    return Err(e);
                },
            }
            i += 1;
        }
        proof {
            assert forall|k: int|
                0 <= k < values_view(items@).len() implies declared_index_field_shape(
                #[trigger] values_view(items@)[k],
            ) by {
                assert(values_view(items@)[k] == items@[k]@);
            }
        }
        let unique = match flag_at(j, "unique") {
            Some(b) => b,
            None => {
                return Err(bad_shape("unique"));
            },
        };
        let r = Index { fields, unique };
        proof {
            let models = values_view(items@);
            assert forall|k: int| 0 <= k < models.len() implies is_declared_index_field_json(
                r.fields@[k],
                #[trigger] models[k],
            ) by {
                assert(models[k] == items@[k]@);
            }
        }
        Ok(r)
    }
}

impl ValidationRule {
    /// Reads a rule; a `SerdeError` for what is none.
    pub fn from_json(j: &JsonValue) -> (r: Result<ValidationRule, FirebaseError>)
        ensures
            r is Ok <==> declared_rule_shape(j@),
            match r {
                Ok(rule) => is_declared_rule_json(rule, j@),
                Err(e) => e@.kind == ErrorKind::Serde,
            },
    {
        let field = match text_at(j, "field") {
            Some(s) => s,
            None => {
                return Err(bad_shape("field"));
            },
        };
        let rule = match j.get("rule") {
            Some(inner) => match ValidationRuleType::from_json(inner) {
                Ok(rule) => rule,
                Err(e) => {
                    return Err(e);
                },
            },
            None => {
                return Err(bad_shape("rule"));
            },
        };
        Ok(ValidationRule { field, rule })
    }
}

impl Collection {
    /// Reads a collection; a `SerdeError` for what is none.
    pub fn from_json(j: &JsonValue) -> (r: Result<Collection, FirebaseError>)
        ensures
            r is Ok <==> declared_collection_shape(j@),
            match r {
                Ok(c) => is_declared_collection_json(c, j@),
                Err(e) => e@.kind == ErrorKind::Serde,
            },
    {
        let name = match text_at(j, "name") {
            Some(s) => s,
            None => {
                return Err(bad_shape("name"));
            },
        };
        let field_items = match array_at(j, "fields") {
            Some(items) => items,
            None => {
                return Err(bad_shape("fields"));
            },
        };
        let index_items = match array_at(j, "indexes") {
            Some(items) => items,
            None => {
                return Err(bad_shape("indexes"));
            },
        };
        let rule_items = match array_at(j, "validation_rules") {
            Some(items) => items,
            None => {
                return Err(bad_shape("validation_rules"));
            },
        };
        let mut fields: Vec<Field> = Vec::new();
        let mut i: usize = 0;
        while i < field_items.len()
            invariant
                i <= field_items.len(),
                fields@.len() == i,
                forall|k: int|
                    0 <= k < i ==> is_declared_field_json(fields@[k], (#[trigger] field_items@[k])@)
                        && declared_field_shape(field_items@[k]@),
                array_member(j@, "fields"@) == Some(values_view(field_items@)),
            decreases field_items.len() - i,
        {
            match Field::from_json(&field_items[i]) {
                Ok(f) => {
                    fields.push(f);
                },
                Err(e) => {
                    proof {
                        assert(values_view(field_items@)[i as int] == field_items@[i as int]@);
                        if declared_collection_shape(j@) {
                            let members = array_member(j@, "fields"@)->0;
                            assert(declared_field_shape(members[i as int]));
                        }
                    }
                    return Err(e);
                },
            }
            i += 1;
        }
        let mut indexes: Vec<Index> = Vec::new();
        let mut i: usize = 0;
        while i < index_items.len()
            invariant
                i <= index_items.len(),
                indexes@.len() == i,
                forall|k: int|
                    0 <= k < i ==> is_declared_index_json(indexes@[k], (#[trigger] index_items@[k])@)
                        && declared_index_shape(index_items@[k]@),
                array_member(j@, "indexes"@) == Some(values_view(index_items@)),
            decreases index_items.len() - i,
        {
            match Index::from_json(&index_items[i]) {
                Ok(x) => {
                    indexes.push(x);
                },
                Err(e) => {
                    proof {
                        assert(values_view(index_items@)[i as int] == index_items@[i as int]@);
                        if declared_collection_shape(j@) {
                            let members = array_member(j@, "indexes"@)->0;
                            assert(declared_index_shape(members[i as int]));
                        }
                    }
                    return Err(e);
                },
            }
            i += 1;
        }
        let mut validation_rules: Vec<ValidationRule> = Vec::new();
        let mut i: usize = 0;
        while i < rule_items.len()
            invariant
                i <= rule_items.len(),
                validation_rules@.len() == i,
                forall|k: int|
                    0 <= k < i ==> is_declared_rule_json(
                        validation_rules@[k],
                        (#[trigger] rule_items@[k])@,
                    ) && declared_rule_shape(rule_items@[k]@),
                array_member(j@, "validation_rules"@) == Some(values_view(rule_items@)),
            decreases rule_items.len() - i,
        {
            match ValidationRule::from_json(&rule_items[i]) {
                Ok(rule) => {
                    validation_rules.push(rule);
                },
                Err(e) => {
                    proof {
                        assert(values_view(rule_items@)[i as int] == rule_items@[i as int]@);
                        if declared_collection_shape(j@) {
                            let members = array_member(j@, "validation_rules"@)->0;
                            assert(declared_rule_shape(members[i as int]));
                        }
                    }
                    return Err(e);
                },
            }
            i += 1;
        }
        let r = Collection { name, fields, indexes, validation_rules };
        proof {
            let f = values_view(field_items@);
            assert forall|k: int| 0 <= k < f.len() implies is_declared_field_json(
                r.fields@[k],
                #[trigger] f[k],
            ) && declared_field_shape(f[k]) by {
                assert(f[k] == field_items@[k]@);
            }
            let x = values_view(index_items@);
            assert forall|k: int| 0 <= k < x.len() implies is_declared_index_json(
                r.indexes@[k],
                #[trigger] x[k],
            ) && declared_index_shape(x[k]) by {
                assert(x[k] == index_items@[k]@);
            }
            let v = values_view(rule_items@);
            assert forall|k: int| 0 <= k < v.len() implies is_declared_rule_json(
                r.validation_rules@[k],
                #[trigger] v[k],
            ) && declared_rule_shape(v[k]) by {
                assert(v[k] == rule_items@[k]@);
            }
        }
        Ok(r)
    }
}

/// `collections` are what the members of `j` say, one collection for each
/// member, in order (the key of a member does not count: the collection's
/// own name does).
pub open spec fn reads_collections(collections: Seq<Collection>, j: JsonModel) -> bool {
    &&& j matches JsonModel::Object(entries)
    &&& entries.len() == collections.len()
    &&& forall|i: int|
        0 <= i < entries.len() ==> is_declared_collection_json(
            collections[i],
            (#[trigger] entries[i]).1,
        )
}

/// Reads collections written by `collections_to_json`; a `SerdeError` for
/// what is none.
pub fn collections_from_json(j: &JsonValue) -> (r: Result<Vec<Collection>, FirebaseError>)
    ensures
        r is Ok <==> collections_shape(j@),
        match r {
            Ok(collections) => reads_collections(collections@, j@),
            Err(e) => e@.kind == ErrorKind::Serde,
        },
{
    let entries = match j {
        JsonValue::Object(entries) => entries,
        _ => {
            return Err(bad_shape("collections"));
        },
    };
    proof {
        lemma_view_object(*entries);
    }
    let mut collections: Vec<Collection> = Vec::new();
    let mut i: usize = 0;
    while i < entries.len()
        invariant
            i <= entries.len(),
            collections@.len() == i,
            forall|k: int|
                0 <= k < i ==> is_declared_collection_json(
                    collections@[k],
                    (#[trigger] entries@[k]).1@,
                ) && declared_collection_shape(entries@[k].1@),
            j@ == JsonModel::Object(entries_view(entries@)),
        decreases entries.len() - i,
    {
        match Collection::from_json(&entries[i].1) {
            Ok(c) => {
                collections.push(c);
            },
            Err(e) => {
                proof {
                    assert(entries_view(entries@)[i as int].1 == entries@[i as int].1@);
                    if collections_shape(j@) {
                        let members = j@->Object_0;
                        assert(declared_collection_shape(members[i as int].1));
                    }
                }
                return Err(e);
            },
        }
        i += 1;
    }
    proof {
        let m = entries_view(entries@);
        assert forall|k: int| 0 <= k < m.len() implies is_declared_collection_json(
            collections@[k],
            (#[trigger] m[k]).1,
        ) && declared_collection_shape(m[k].1) by {
            assert(m[k] == (entries@[k].0@, entries@[k].1@));
        }
    }
    Ok(collections)
}


/// The text of a JSON value, indented; empty where it has none.
pub open spec fn pretty_or_empty(j: JsonModel) -> Seq<char> {
    match pretty_text_of_json(j) {
        Some(t) => t,
        None => Seq::empty(),
    }
}

/// The text of a JSON value; empty where it has none.
pub open spec fn text_or_empty(j: JsonModel) -> Seq<char> {
    match text_of_json(j) {
        Some(t) => t,
        None => Seq::empty(),
    }
}

fn compact_text(j: &JsonValue) -> (r: String)
    ensures
        r@ == text_or_empty(j@),
{
    match to_json_text(j) {
        Some(t) => t,
        None => String::new(),
    }
}

/// What is recorded in the store of a declared collection: its name, the
/// time of the record, and its fields, indexes and rules as JSON texts.
#[derive(Debug)]
pub struct CollectionMetadata {
    pub name: String,
    pub created_at: Timestamp,
    pub fields: String,
    pub indexes: String,
    pub validation_rules: String,
}

/// `text` is the JSON text of the fields of the collection.
pub open spec fn is_fields_text(c: Collection, text: Seq<char>) -> bool {
    exists|j: JsonModel|
        (j matches JsonModel::Array(items) && items.len() == c.fields@.len() && forall|i: int|
            0 <= i < items.len() ==> is_declared_field_json(c.fields@[i], #[trigger] items[i]))
            && text == #[trigger] text_or_empty(j)
}

/// `text` is the JSON text of the indexes of the collection.
pub open spec fn is_indexes_text(c: Collection, text: Seq<char>) -> bool {
    exists|j: JsonModel|
        (j matches JsonModel::Array(items) && items.len() == c.indexes@.len() && forall|i: int|
            0 <= i < items.len() ==> is_declared_index_json(c.indexes@[i], #[trigger] items[i]))
            && text == #[trigger] text_or_empty(j)
}

/// `text` is the JSON text of the rules of the collection.
pub open spec fn is_rules_text(c: Collection, text: Seq<char>) -> bool {
    exists|j: JsonModel|
        (j matches JsonModel::Array(items) && items.len() == c.validation_rules@.len()
            && forall|i: int|
            0 <= i < items.len() ==> is_declared_rule_json(
                c.validation_rules@[i],
                #[trigger] items[i],
            )) && text == #[trigger] text_or_empty(j)
}

impl CollectionMetadata {
    /// The record of a collection, made at the time `now`.
    pub fn new(collection: &Collection, now: Timestamp) -> (r: Self)
        ensures
            r.name@ == collection.name@,
            r.created_at == now,
            is_fields_text(*collection, r.fields@),
            is_indexes_text(*collection, r.indexes@),
            is_rules_text(*collection, r.validation_rules@),
    {
        let fields_json = fields_to_json(&collection.fields);
        let indexes_json = indexes_to_json(&collection.indexes);
        let rules_json = rules_to_json(&collection.validation_rules);
        let fields = compact_text(&fields_json);
        let indexes = compact_text(&indexes_json);
        let validation_rules = compact_text(&rules_json);
        proof {
            assert(fields@ == text_or_empty(fields_json@));
            assert(indexes@ == text_or_empty(indexes_json@));
            assert(validation_rules@ == text_or_empty(rules_json@));
        }
        Self { name: collection.name.clone(), created_at: now, fields, indexes, validation_rules }
    }
}

impl ToFirestore for CollectionMetadata {
    open spec fn fields_model(&self) -> FieldsModel {
        seq![
            ("name"@, FirestoreModel::StringValue(self.name@)),
            ("created_at"@, FirestoreModel::TimestampValue(self.created_at.text())),
            ("fields"@, FirestoreModel::StringValue(self.fields@)),
            ("indexes"@, FirestoreModel::StringValue(self.indexes@)),
            ("validation_rules"@, FirestoreModel::StringValue(self.validation_rules@)),
        ]
    }

    fn to_firestore(&self) -> (r: FirestoreFields) {
        let mut map: Vec<(String, FirestoreValue)> = Vec::new();
        map.push((String::from_str("name"), FirestoreValue::StringValue(self.name.clone())));
        map.push(
            (
                String::from_str("created_at"),
                FirestoreValue::TimestampValue(self.created_at.to_rfc3339()),
            ),
        );
        map.push((String::from_str("fields"), FirestoreValue::StringValue(self.fields.clone())));
        map.push((String::from_str("indexes"), FirestoreValue::StringValue(self.indexes.clone())));
        map.push(
            (
                String::from_str("validation_rules"),
                FirestoreValue::StringValue(self.validation_rules.clone()),
            ),
        );
        proof {
            lemma_member_names();
            assert(crate::models::fields_view(map@) =~= self.fields_model());
        }
        map
    }
}

/// The collection of the store in which the declared collections are recorded.
pub open spec fn metadata_collection() -> Seq<char> {
    "_metadata_collections"@
}

impl SchemaManager {
    /// The collections that are defined, as an indented JSON text: one
    /// member for each collection, under its name.
    pub fn export_schema(&self) -> (r: String)
        ensures
            exists|j: JsonModel|
                is_collections_json(self.collections(), j) && r@ == #[trigger] pretty_or_empty(j),
    {
        let j = collections_to_json(self.defined_collections());
        let r = match to_json_text_pretty(&j) {
            Some(t) => t,
            None => String::new(),
        };
        proof {
            assert(r@ == pretty_or_empty(j@));
        }
        r
    }

    /// Takes the collections of a JSON text in place of those that are
    /// defined. A text that is no JSON of collections is a `SerdeError`, and
    /// leaves the defined collections as they are.
    pub fn import_schema(&mut self, json: &str) -> (r: Result<(), FirebaseError>)
        ensures
            r is Ok <==> (json_of_text(json@) matches Some(j) && collections_shape(j)),
            match r {
                Ok(_) => json_of_text(json@) matches Some(j) && exists|read: Seq<Collection>|
                    reads_collections(read, j) && final(self).collections() == #[trigger] defined_all(
                        Seq::empty(),
                        read,
                    ),
                Err(e) => e@.kind == ErrorKind::Serde && final(self).collections() == old(
                    self,
                ).collections(),
            },
    {
        let j = match parse_json(json) {
            Ok(j) => j,
            Err(e) => {
                return Err(e);
            },
        };
        let collections = match collections_from_json(&j) {
            Ok(c) => c,
            Err(e) => {
                return Err(e);
            },
        };
        let ghost read = collections@;
        self.clear();
        let mut rest = collections;
        let ghost mut done: int = 0;
        proof {
            assert(read.take(0) =~= Seq::empty());
            assert(read.skip(0) =~= read);
        }
        while rest.len() > 0
            invariant
                0 <= done <= read.len(),
                rest@ == read.skip(done),
                self.collections() == defined_all(Seq::empty(), read.take(done)),
            decreases rest.len(),
        {
            let c = rest.remove(0);
            proof {
                let next = read.take(done + 1);
                assert(next.drop_last() =~= read.take(done));
                assert(next.last() == read[done]);
                assert(c == read[done]);
                assert(rest@ =~= read.skip(done + 1));
            }
            self.define_collection(c);
            proof {
                done = done + 1;
            }
        }
        proof {
            assert(read.take(done) =~= read);
        }
        Ok(())
    }

    /// The requests that record every defined collection in the store, at
    /// the time `now`: one create request for each, in order.
    pub fn initialize_collections(&self, now: Timestamp) -> (r: Vec<HttpRequest>)
        ensures
            r@.len() == self.collections().len(),
            forall|i: int|
                0 <= i < r@.len() ==> records_collection(
                    (#[trigger] r@[i])@,
                    self.collections()[i],
                    now,
                    self.client_base_url(),
                    self.client_api_key(),
                ),
    {
        let collections = self.defined_collections();
        let mut requests: Vec<HttpRequest> = Vec::new();
        let mut i: usize = 0;
        while i < collections.len()
            invariant
                i <= collections.len(),
                collections@ == self.collections(),
                requests@.len() == i,
                forall|k: int|
                    0 <= k < i ==> records_collection(
                        (#[trigger] requests@[k])@,
                        collections@[k],
                        now,
                        self.client_base_url(),
                        self.client_api_key(),
                    ),
            decreases collections.len() - i,
        {
            let record = CollectionMetadata::new(&collections[i], now);
            let request = self.metadata_request(&record);
            proof {
                assert(is_record_of(record, collections@[i as int], now));
                assert(records_collection(
                    request@,
                    collections@[i as int],
                    now,
                    self.client_base_url(),
                    self.client_api_key(),
                ));
            }
            requests.push(request);
            i += 1;
        }
        requests
    }
}

/// `record` is the record of the collection, made at the time `now`.
pub open spec fn is_record_of(record: CollectionMetadata, collection: Collection, now: Timestamp) -> bool {
    &&& record.name@ == collection.name@
    &&& record.created_at == now
    &&& is_fields_text(collection, record.fields@)
    &&& is_indexes_text(collection, record.indexes@)
    &&& is_rules_text(collection, record.validation_rules@)
}

/// `request` creates the record of the collection, made at the time `now`,
/// in the store at `base_url`.
pub open spec fn records_collection(
    request: crate::firebase::RequestModel,
    collection: Collection,
    now: Timestamp,
    base_url: Seq<char>,
    api_key: Seq<char>,
) -> bool {
    exists|record: CollectionMetadata| #[trigger]
        is_record_of(record, collection, now) && request == (crate::firebase::RequestModel {
            method: crate::firebase::HttpMethod::Post,
            url: crate::firebase::keyed(
                crate::firebase::collection_url(base_url, metadata_collection()),
                api_key,
            ),
            body: Some(crate::wire::fields_body_model(record.fields_model())),
        })
}

} // verus!
