//! Declared schemas and the validation of records against them.
//!
//! Validation stops at the first thing that is wrong: first the declared
//! fields in their order (a required field that is missing, a field of the
//! wrong kind), then the rules in their order. It reports that one failure
//! and looks no further.

use vstd::prelude::*;
use crate::double::{number_text_less, text_less};
use crate::error::{config_error, validation_error, ErrorKind, ErrorModel, FirebaseError};
use crate::firebase::FirebaseClient;
use crate::json::lookup;
use crate::models::{
    fields_view, get_field, FieldsModel, FirestoreFields, FirestoreModel, FirestoreValue,
    ToFirestore,
};
use crate::text::{
    byte_len, byte_length, concat2, concat3, contains_char, decimal, format_u64, str_eq,
};

verus! {

#[derive(Debug)]
pub struct Collection {
    pub name: String,
    pub fields: Vec<Field>,
    pub indexes: Vec<Index>,
    pub validation_rules: Vec<ValidationRule>,
}

#[derive(Debug)]
pub struct Field {
    pub name: String,
    pub field_type: FieldType,
    pub required: bool,
    pub default_value: Option<FirestoreValue>,
    pub description: Option<String>,
}

#[derive(Debug, Clone, Copy, PartialEq, Eq, Structural)]
pub enum FieldType {
    String,
    Integer,
    Double,
    Boolean,
    Timestamp,
    /// A map of named values.
    Mapping,
    Array,
    Reference,
}

#[derive(Debug, Clone)]
pub struct Index {
    pub fields: Vec<IndexField>,
    pub unique: bool,
}

#[derive(Debug, Clone)]
pub struct IndexField {
    pub field_path: String,
    pub order: IndexOrder,
}

#[derive(Debug, Clone, Copy, PartialEq, Eq, Structural)]
pub enum IndexOrder {
    Ascending,
    Descending,
}

#[derive(Debug)]
pub struct ValidationRule {
    pub field: String,
    pub rule: ValidationRuleType,
}

#[derive(Debug)]
pub enum ValidationRuleType {
    /// At least so many bytes of text.
    MinLength(usize),
    /// At most so many bytes of text.
    MaxLength(usize),
    /// No less than the bound, which is given as a JSON number text.
    Min(String),
    /// No more than the bound, which is given as a JSON number text.
    Max(String),
    /// A match for the pattern somewhere in the text.
    Regex(String),
    /// An `@` and a `.` in the text.
    Email,
    /// Not checked.
    Url,
    /// Not checked.
    Custom(String),
}

/// Whether `pattern` finds a match somewhere in `text`; `None` where the
/// pattern is no regular expression (or one too large to build).
pub uninterp spec fn regex_match(pattern: Seq<char>, text: Seq<char>) -> Option<bool>;

/// What the regular-expression engine says against a pattern that it refuses.
pub uninterp spec fn regex_complaint(pattern: Seq<char>) -> Seq<char>;

/// `regex::Regex::new` on the pattern, then `Regex::is_match` on the text;
/// for a pattern that `new` refuses, the refusal's own message.
#[verifier::external_body]
fn regex_is_match(pattern: &str, text: &str) -> (r: Result<bool, String>)
    ensures
        match r {
            Ok(found) => regex_match(pattern@, text@) == Some(found),
            Err(message) => regex_match(pattern@, text@) is None && message@ == regex_complaint(
                pattern@,
            ),
        },
{
    regex::Regex::new(pattern).map(|re| re.is_match(text)).map_err(|e| e.to_string())
}

impl FieldType {
    /// The name of the type as messages show it.
    pub open spec fn name(self) -> Seq<char> {
        match self {
            FieldType::String => "String"@,
            FieldType::Integer => "Integer"@,
            FieldType::Double => "Double"@,
            FieldType::Boolean => "Boolean"@,
            FieldType::Timestamp => "Timestamp"@,
            FieldType::Mapping => "Map"@,
            FieldType::Array => "Array"@,
            FieldType::Reference => "Reference"@,
        }
    }

    pub fn to_name(&self) -> (r: String)
        ensures
            r@ == self.name(),
    {
        let name = match self {
            FieldType::String => "String",
            FieldType::Integer => "Integer",
            FieldType::Double => "Double",
            FieldType::Boolean => "Boolean",
            FieldType::Timestamp => "Timestamp",
            FieldType::Mapping => "Map",
            FieldType::Array => "Array",
            FieldType::Reference => "Reference",
        };
        String::from_str(name)
    }

    /// Whether a value is of the declared type. Nothing is of the type `Reference`.
    pub open spec fn admits(self, value: FirestoreModel) -> bool {
        match (self, value) {
            (FieldType::String, FirestoreModel::StringValue(_)) => true,
            (FieldType::Integer, FirestoreModel::IntegerValue(_)) => true,
            (FieldType::Double, FirestoreModel::DoubleValue(_)) => true,
            (FieldType::Boolean, FirestoreModel::BooleanValue(_)) => true,
            (FieldType::Timestamp, FirestoreModel::TimestampValue(_)) => true,
            (FieldType::Mapping, FirestoreModel::MapValue(_)) => true,
            (FieldType::Array, FirestoreModel::ArrayValue(_)) => true,
            _ => false,
        }
    }
}

/// The failure for a field of the wrong kind.
pub open spec fn wrong_type(field_name: Seq<char>, expected: FieldType) -> ErrorModel {
    validation_error(
        "Field '"@ + field_name + "' has incorrect type. Expected "@ + expected.name(),
    )
}

/// The failure for a required field that is missing.
pub open spec fn missing_required(field_name: Seq<char>) -> ErrorModel {
    validation_error("Required field '"@ + field_name + "' is missing"@)
}

/// The failure for a field that breaks a rule: the field's name, then what it must be.
pub open spec fn broken_rule(field_name: Seq<char>, must: Seq<char>) -> ErrorModel {
    validation_error("Field '"@ + field_name + "' "@ + must)
}

/// What is wrong with `value` under the rule, if anything. A rule speaks only
/// of the kinds of value it is made for: a length rule, `Regex` and `Email` of
/// strings, `Min` and `Max` of integers and doubles.
pub open spec fn rule_violation(
    field_name: Seq<char>,
    rule: ValidationRuleType,
    value: FirestoreModel,
) -> Option<ErrorModel> {
    match rule {
        ValidationRuleType::MinLength(min) => match value {
            FirestoreModel::StringValue(s) => if byte_length(s) < min {
                Some(
                    broken_rule(
                        field_name,
                        "must be at least "@ + decimal(min as nat) + " characters"@,
                    ),
                )
            } else {
                None
            },
            _ => None,
        },
        ValidationRuleType::MaxLength(max) => match value {
            FirestoreModel::StringValue(s) => if byte_length(s) > max {
                Some(
                    broken_rule(
                        field_name,
                        "must be at most "@ + decimal(max as nat) + " characters"@,
                    ),
                )
            } else {
                None
            },
            _ => None,
        },
        ValidationRuleType::Min(min) => match value {
            FirestoreModel::IntegerValue(t) | FirestoreModel::DoubleValue(t) => if text_less(
                t,
                min@,
            ) {
                Some(broken_rule(field_name, "must be at least "@ + min@))
            } else {
                None
            },
            _ => None,
        },
        ValidationRuleType::Max(max) => match value {
            FirestoreModel::IntegerValue(t) | FirestoreModel::DoubleValue(t) => if text_less(
                max@,
                t,
            ) {
                Some(broken_rule(field_name, "must be at most "@ + max@))
            } else {
                None
            },
            _ => None,
        },
        ValidationRuleType::Email => match value {
            FirestoreModel::StringValue(s) => if !s.contains('@') || !s.contains('.') {
                Some(broken_rule(field_name, "must be a valid email"@))
            } else {
                None
            },
            _ => None,
        },
        ValidationRuleType::Regex(pattern) => match value {
            FirestoreModel::StringValue(s) => match regex_match(pattern@, s) {
                Some(true) => None,
                Some(false) => Some(
                    broken_rule(field_name, "does not match pattern "@ + pattern@),
                ),
                None => Some(config_error("Invalid regex: "@ + regex_complaint(pattern@))),
            },
            _ => None,
        },
        ValidationRuleType::Url => None,
        ValidationRuleType::Custom(_) => None,
    }
}

/// What is wrong with the fields under one declared field, if anything.
pub open spec fn field_failure(def: Field, fields: FieldsModel) -> Option<ErrorModel> {
    match lookup(fields, def.name@) {
        Some(value) => if def.field_type.admits(value) {
            None
        } else {
            Some(wrong_type(def.name@, def.field_type))
        },
        None => if def.required {
            Some(missing_required(def.name@))
        } else {
            None
        },
    }
}

/// What is wrong with the fields under one rule, if anything: a rule on a
/// field that is missing says nothing.
pub open spec fn rule_failure(rule: ValidationRule, fields: FieldsModel) -> Option<ErrorModel> {
    match lookup(fields, rule.field@) {
        Some(value) => rule_violation(rule.field@, rule.rule, value),
        None => None,
    }
}

/// The first failure among the declared fields, in their order.
pub open spec fn first_field_failure(defs: Seq<Field>, fields: FieldsModel) -> Option<ErrorModel>
    decreases defs.len(),
{
    if defs.len() == 0 {
        None
    } else {
        match field_failure(defs[0], fields) {
            Some(e) => Some(e),
            None => first_field_failure(defs.skip(1), fields),
        }
    }
}

/// The first failure among the rules, in their order.
pub open spec fn first_rule_failure(rules: Seq<ValidationRule>, fields: FieldsModel) -> Option<
    ErrorModel,
>
    decreases rules.len(),
{
    if rules.len() == 0 {
        None
    } else {
        match rule_failure(rules[0], fields) {
            Some(e) => Some(e),
            None => first_rule_failure(rules.skip(1), fields),
        }
    }
}

/// The first failure of the fields against a collection: the declared
/// fields come before the rules.
pub open spec fn first_failure(collection: Collection, fields: FieldsModel) -> Option<ErrorModel> {
    match first_field_failure(collection.fields@, fields) {
        Some(e) => Some(e),
        None => first_rule_failure(collection.validation_rules@, fields),
    }
}

/// Index of the first collection named `name`.
pub open spec fn collection_index(collections: Seq<Collection>, name: Seq<char>) -> Option<int>
    decreases collections.len(),
{
    if collections.len() == 0 {
        None
    } else if collections.last().name@ == name {
        match collection_index(collections.drop_last(), name) {
            Some(i) => Some(i),
            None => Some(collections.len() - 1),
        }
    } else {
        collection_index(collections.drop_last(), name)
    }
}

pub proof fn lemma_collection_index(collections: Seq<Collection>, name: Seq<char>)
    ensures
        match collection_index(collections, name) {
            Some(i) => 0 <= i < collections.len() && collections[i].name@ == name && forall|
                j: int,
            | 0 <= j < i ==> (#[trigger] collections[j]).name@ != name,
            None => forall|j: int|
                0 <= j < collections.len() ==> (#[trigger] collections[j]).name@ != name,
        },
    decreases collections.len(),
{
    if collections.len() > 0 {
        let rest = collections.drop_last();
        lemma_collection_index(rest, name);
        match collection_index(rest, name) {
            Some(i) => {
                assert(rest[i] == collections[i]);
                assert forall|j: int| 0 <= j < i implies (#[trigger] collections[j]).name@
                    != name by {
                    assert(rest[j] == collections[j]);
                }
            },
            None => {
                assert forall|j: int| 0 <= j < rest.len() implies (#[trigger] collections[j]).name@
                    != name by {
                    assert(rest[j] == collections[j]);
                }
            },
        }
    }
}

/// The collections after `collection` is defined: in place of the one of the
/// same name where there is one, else after the others.
pub open spec fn defined(collections: Seq<Collection>, collection: Collection) -> Seq<Collection> {
    match collection_index(collections, collection.name@) {
        Some(i) => collections.update(i, collection),
        None => collections.push(collection),
    }
}

/// The collections after each of `more` is defined, in order.
pub open spec fn defined_all(collections: Seq<Collection>, more: Seq<Collection>) -> Seq<Collection>
    decreases more.len(),
{
    if more.len() == 0 {
        collections
    } else {
        defined(defined_all(collections, more.drop_last()), more.last())
    }
}

/// The failure for a collection that nobody defined.
pub open spec fn not_defined(name: Seq<char>) -> ErrorModel {
    config_error("Collection "@ + name + " not defined"@)
}

#[derive(Debug)]
pub struct SchemaManager {
    client: FirebaseClient,
    collections: Vec<Collection>,
}

fn rule_error(field_name: &str, must: String) -> (r: FirebaseError)
    ensures
        r@ == broken_rule(field_name@, must@),
{
    let mut s = concat3("Field '", field_name, "' ");
    s.append(must.as_str());
    FirebaseError::ValidationError(s)
}

impl SchemaManager {
    /// The collections defined, in the order in which their names first came.
    pub closed spec fn collections(&self) -> Seq<Collection> {
        self.collections@
    }

    /// The client that the manager was made with.
    pub closed spec fn client_model(&self) -> FirebaseClient {
        self.client
    }

    /// A manager with no collection defined.
    pub fn new(client: FirebaseClient) -> (r: Self)
        ensures
            r.collections() == Seq::<Collection>::empty(),
            r.client_model() == client,
    {
        Self { client, collections: Vec::new() }
    }

    /// The client that the manager was made with.
    pub fn client(&self) -> (r: &FirebaseClient)
        ensures
            *r == self.client_model(),
    {
        &self.client
    }

    /// The collections defined, in the order in which their names first came.
    pub fn defined_collections(&self) -> (r: &Vec<Collection>)
        ensures
            r@ == self.collections(),
    {
        &self.collections
    }

    /// The address of the store that the manager's client speaks to.
    pub open spec fn client_base_url(&self) -> Seq<char> {
        self.client_model().base_url@
    }

    /// The key that the manager's client shows to the store.
    pub open spec fn client_api_key(&self) -> Seq<char> {
        self.client_model().api_key@
    }

    /// The request that records a declared collection in the store.
    pub fn metadata_request<T: ToFirestore>(&self, record: &T) -> (r: crate::firebase::HttpRequest)
        ensures
            r@ == (crate::firebase::RequestModel {
                method: crate::firebase::HttpMethod::Post,
                url: crate::firebase::keyed(
                    crate::firebase::collection_url(
                        self.client_base_url(),
                        "_metadata_collections"@,
                    ),
                    self.client_api_key(),
                ),
                body: Some(crate::wire::fields_body_model(record.fields_model())),
            }),
    {
        self.client.create_request("_metadata_collections", record)
    }

    /// Forgets every collection.
    pub fn clear(&mut self)
        ensures
            final(self).collections() == Seq::<Collection>::empty(),
    {
        self.collections = Vec::new();
    }

    fn find(&self, name: &str) -> (r: Option<usize>)
        ensures
            match r {
                Some(i) => collection_index(self.collections(), name@) == Some(i as int) && i
                    < self.collections().len(),
                None => collection_index(self.collections(), name@) is None,
            },
    {
        let mut i: usize = 0;
        while i < self.collections.len()
            invariant
                i <= self.collections.len(),
                forall|j: int| 0 <= j < i ==> (#[trigger] self.collections@[j]).name@ != name@,
            decreases self.collections.len() - i,
        {
            if str_eq(self.collections[i].name.as_str(), name) {
                proof {
                    lemma_collection_index(self.collections@, name@);
                    assert(self.collections@[i as int].name@ == name@);
                }
                return Some(i);
            }
            i += 1;
        }
        proof {
            lemma_collection_index(self.collections@, name@);
        }
        None
    }

    /// Defines a collection: in place of the one of the same name where
    /// there is one, else after the others.
    pub fn define_collection(&mut self, collection: Collection)
        ensures
            final(self).collections() == defined(old(self).collections(), collection),
    {
        match self.find(collection.name.as_str()) {
            Some(i) => {
                self.collections.set(i, collection);
            },
            None => {
                self.collections.push(collection);
            },
        }
    }

    /// The collection defined under `name`.
    pub fn get_collection(&self, name: &str) -> (r: Option<&Collection>)
        ensures
            match r {
                Some(c) => collection_index(self.collections(), name@) matches Some(i) && *c
                    == self.collections()[i],
                None => collection_index(self.collections(), name@) is None,
            },
    {
        match self.find(name) {
            Some(i) => Some(&self.collections[i]),
            None => None,
        }
    }

    /// Checks a record against the collection defined under `collection_name`.
    /// A collection that nobody defined is a `ConfigError`; otherwise the
    /// result is the first failure of the record's fields, if there is one.
    pub fn validate<T: ToFirestore>(&self, collection_name: &str, item: &T) -> (r: Result<
        (),
        FirebaseError,
    >)
        ensures
            match collection_index(self.collections(), collection_name@) {
                None => r matches Err(e) && e@ == not_defined(collection_name@),
                Some(i) => match first_failure(self.collections()[i], item.fields_model()) {
                    Some(failure) => r matches Err(e) && e@ == failure,
                    None => r is Ok,
                },
            },
    {
        let collection = match self.get_collection(collection_name) {
            Some(c) => c,
            None => {
                return Err(
                    FirebaseError::ConfigError(
                        concat3("Collection ", collection_name, " not defined"),
                    ),
                );
            },
        };
        let fields = item.to_firestore();
        validate_fields(collection, &fields)
    }
}

/// Checks fields against a collection: the first failure, if there is one.
pub fn validate_fields(collection: &Collection, fields: &FirestoreFields) -> (r: Result<
    (),
    FirebaseError,
>)
    ensures
        match first_failure(*collection, fields_view(fields@)) {
            Some(failure) => r matches Err(e) && e@ == failure,
            None => r is Ok,
        },
{
    let ghost model = fields_view(fields@);
    let mut i: usize = 0;
    proof {
        assert(collection.fields@.skip(0) =~= collection.fields@);
    }
    while i < collection.fields.len()
        invariant
            i <= collection.fields.len(),
            model == fields_view(fields@),
            first_field_failure(collection.fields@, model) == first_field_failure(
                collection.fields@.skip(i as int),
                model,
            ),
        decreases collection.fields.len() - i,
    {
        let def = &collection.fields[i];
        proof {
            let rest = collection.fields@.skip(i as int);
            assert(rest[0] == collection.fields@[i as int]);
            assert(rest.skip(1) =~= collection.fields@.skip(i + 1));
        }
        match get_field(fields, def.name.as_str()) {
            Some(value) => {
                match validate_field_type(def.name.as_str(), &def.field_type, value) {
                    Ok(_) => {},
                    Err(e) => {
                        return Err(e);
                    },
                }
            },
            None => {
                if def.required {
                    return Err(
                        FirebaseError::ValidationError(
                            concat3("Required field '", def.name.as_str(), "' is missing"),
                        ),
                    );
                }
            },
        }
        i += 1;
    }
    let mut k: usize = 0;
    proof {
        assert(collection.validation_rules@.skip(0) =~= collection.validation_rules@);
    }
    while k < collection.validation_rules.len()
        invariant
            k <= collection.validation_rules.len(),
            model == fields_view(fields@),
            first_field_failure(collection.fields@, model) is None,
            first_rule_failure(collection.validation_rules@, model) == first_rule_failure(
                collection.validation_rules@.skip(k as int),
                model,
            ),
        decreases collection.validation_rules.len() - k,
    {
        let rule = &collection.validation_rules[k];
        proof {
            let rest = collection.validation_rules@.skip(k as int);
            assert(rest[0] == collection.validation_rules@[k as int]);
            assert(rest.skip(1) =~= collection.validation_rules@.skip(k + 1));
        }
        match get_field(fields, rule.field.as_str()) {
            Some(value) => {
                match validate_rule(rule.field.as_str(), &rule.rule, value) {
                    Ok(_) => {},
                    Err(e) => {
                        return Err(e);
                    },
                }
            },
            None => {},
        }
        k += 1;
    }
    Ok(())
}

/// Whether the value is of the declared type; the failure names the field
/// and the type that was expected.
pub fn validate_field_type(field_name: &str, expected_type: &FieldType, value: &FirestoreValue) -> (r:
    Result<(), FirebaseError>)
    ensures
        match r {
            Ok(_) => expected_type.admits(value@),
            Err(e) => !expected_type.admits(value@) && e@ == wrong_type(
                field_name@,
                *expected_type,
            ),
        },
{
    let valid = match (expected_type, value) {
        (FieldType::String, FirestoreValue::StringValue(_)) => true,
        (FieldType::Integer, FirestoreValue::IntegerValue(_)) => true,
        (FieldType::Double, FirestoreValue::DoubleValue(_)) => true,
        (FieldType::Boolean, FirestoreValue::BooleanValue(_)) => true,
        (FieldType::Timestamp, FirestoreValue::TimestampValue(_)) => true,
        (FieldType::Mapping, FirestoreValue::MapValue { .. }) => true,
        (FieldType::Array, FirestoreValue::ArrayValue { .. }) => true,
        _ => false,
    };
    if !valid {
        let mut s = concat3("Field '", field_name, "' has incorrect type. Expected ");
        s.append(expected_type.to_name().as_str());
        return Err(FirebaseError::ValidationError(s));
    }
    Ok(())
}

/// Whether the value keeps the rule; the failure names the field and says
/// what the rule asks. A pattern that is no regular expression is a `ConfigError`.
pub fn validate_rule(field_name: &str, rule: &ValidationRuleType, value: &FirestoreValue) -> (r:
    Result<(), FirebaseError>)
    ensures
        match rule_violation(field_name@, *rule, value@) {
            Some(failure) => r matches Err(e) && e@ == failure,
            None => r is Ok,
        },
{
    match rule {
        ValidationRuleType::MinLength(min) => {
            if let FirestoreValue::StringValue(s) = value {
                if byte_len(s.as_str()) < *min {
                    return Err(
                        rule_error(
                            field_name,
                            concat3(
                                "must be at least ",
                                format_u64(*min as u64).as_str(),
                                " characters",
                            ),
                        ),
                    );
                }
            }
        },
        ValidationRuleType::MaxLength(max) => {
            if let FirestoreValue::StringValue(s) = value {
                if byte_len(s.as_str()) > *max {
                    return Err(
                        rule_error(
                            field_name,
                            concat3(
                                "must be at most ",
                                format_u64(*max as u64).as_str(),
                                " characters",
                            ),
                        ),
                    );
                }
            }
        },
        ValidationRuleType::Min(min) => {
            match value {
                FirestoreValue::IntegerValue(t) | FirestoreValue::DoubleValue(t) => {
                    if number_text_less(t.as_str(), min.as_str()) {
                        return Err(
                            rule_error(field_name, concat2("must be at least ", min.as_str())),
                        );
                    }
                },
                _ => {},
            }
        },
        ValidationRuleType::Max(max) => {
            match value {
                FirestoreValue::IntegerValue(t) | FirestoreValue::DoubleValue(t) => {
                    if number_text_less(max.as_str(), t.as_str()) {
                        return Err(
                            rule_error(field_name, concat2("must be at most ", max.as_str())),
                        );
                    }
                },
                _ => {},
            }
        },
        ValidationRuleType::Email => {
            if let FirestoreValue::StringValue(s) = value {
                if !contains_char(s.as_str(), '@') || !contains_char(s.as_str(), '.') {
                    return Err(rule_error(field_name, String::from_str("must be a valid email")));
                }
            }
        },
        ValidationRuleType::Regex(pattern) => {
            if let FirestoreValue::StringValue(s) = value {
                match regex_is_match(pattern.as_str(), s.as_str()) {
                    Ok(found) => {
                        if !found {
                            return Err(
                                rule_error(
                                    field_name,
                                    concat2("does not match pattern ", pattern.as_str()),
                                ),
                            );
                        }
                    },
                    Err(message) => {
                        return Err(
                            FirebaseError::ConfigError(
                                concat2("Invalid regex: ", message.as_str()),
                            ),
                        );
                    },
                }
            }
        },
        _ => {},
    }
    Ok(())
}


impl IndexOrder {
    /// The name of the order as messages and files show it.
    pub open spec fn name(self) -> Seq<char> {
        match self {
            IndexOrder::Ascending => "Ascending"@,
            IndexOrder::Descending => "Descending"@,
        }
    }

    pub fn to_name(&self) -> (r: String)
        ensures
            r@ == self.name(),
    {
        match self {
            IndexOrder::Ascending => String::from_str("Ascending"),
            IndexOrder::Descending => String::from_str("Descending"),
        }
    }
}

/// The lines that say what one index is made of.
pub open spec fn index_field_lines(fields: Seq<IndexField>) -> Seq<char>
    decreases fields.len(),
{
    if fields.len() == 0 {
        Seq::empty()
    } else {
        index_field_lines(fields.drop_last()) + "  - Field: "@ + fields.last().field_path@
            + ", Order: "@ + fields.last().order.name() + "\n"@
    }
}

/// The lines for the first `upto` indexes, each under its number.
pub open spec fn index_lines(indexes: Seq<Index>, upto: int) -> Seq<char>
    decreases upto,
{
    if upto <= 0 {
        Seq::empty()
    } else {
        let index = indexes[upto - 1];
        index_lines(indexes, upto - 1) + "\nIndex "@ + crate::text::decimal(upto as nat) + ":\n"@
            + index_field_lines(index.fields@) + if index.unique {
            "  - Unique: true\n"@
        } else {
            Seq::empty()
        }
    }
}

/// What is said of the indexes of a collection: that they must be made
/// elsewhere, and which they are.
pub open spec fn index_report(collection: Collection, name: Seq<char>) -> Seq<char> {
    "Note: Firestore indexes must be created in the Firebase Console or via Firebase CLI\n"@
        + "Required indexes for collection '"@ + name + "':\n"@ + index_lines(
        collection.indexes@,
        collection.indexes@.len() as int,
    )
}

impl SchemaManager {
    /// The indexes that a collection needs, as a text to show: the store
    /// makes no index on request. A collection that nobody defined is a
    /// `ConfigError`.
    pub fn create_indexes(&self, collection_name: &str) -> (r: Result<String, FirebaseError>)
        ensures
            match collection_index(self.collections(), collection_name@) {
                None => r matches Err(e) && e@ == not_defined(collection_name@),
                Some(i) => r matches Ok(text) && text@ == index_report(
                    self.collections()[i],
                    collection_name@,
                ),
            },
    {
        let collection = match self.get_collection(collection_name) {
            Some(c) => c,
            None => {
                return Err(
                    FirebaseError::ConfigError(
                        concat3("Collection ", collection_name, " not defined"),
                    ),
                );
            },
        };
        let mut out = String::from_str(
            "Note: Firestore indexes must be created in the Firebase Console or via Firebase CLI\n",
        );
        out.append("Required indexes for collection '");
        out.append(collection_name);
        out.append("':\n");
        let ghost head = out@;
        let mut i: usize = 0;
        proof {
            assert(out@ =~= head + index_lines(collection.indexes@, 0));
        }
        while i < collection.indexes.len()
            invariant
                i <= collection.indexes.len(),
                out@ == head + index_lines(collection.indexes@, i as int),
            decreases collection.indexes.len() - i,
        {
            let index = &collection.indexes[i];
            let ghost before = out@;
            out.append("\nIndex ");
            out.append(format_u64((i + 1) as u64).as_str());
            out.append(":\n");
            let ghost opened = out@;
            let mut k: usize = 0;
            proof {
                assert(index.fields@.take(0) =~= Seq::empty());
                assert(out@ =~= opened + index_field_lines(index.fields@.take(0)));
            }
            while k < index.fields.len()
                invariant
                    k <= index.fields.len(),
                    out@ == opened + index_field_lines(index.fields@.take(k as int)),
                decreases index.fields.len() - k,
            {
                let field = &index.fields[k];
                out.append("  - Field: ");
                out.append(field.field_path.as_str());
                out.append(", Order: ");
                out.append(field.order.to_name().as_str());
                out.append("\n");
                proof {
                    let next = index.fields@.take(k + 1);
                    assert(next.drop_last() =~= index.fields@.take(k as int));
                    assert(next.last() == index.fields@[k as int]);
                    assert(out@ =~= opened + index_field_lines(next));
                }
                k += 1;
            }
            proof {
                assert(index.fields@.take(k as int) =~= index.fields@);
            }
            if index.unique {
                out.append("  - Unique: true\n");
            }
            proof {
                assert(out@ =~= head + index_lines(collection.indexes@, i + 1));
            }
            i += 1;
        }
        Ok(out)
    }
}

} // verus!
