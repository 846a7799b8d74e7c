//! A client library for a cloud document store reached over REST: the value
//! model and its conversions, the structured-query builder, what each request
//! holds and what each response means, schema discovery and validation.

pub mod cli;
pub mod collections;
pub mod convert;
pub mod double;
pub mod error;
pub mod firebase;
pub mod json;
pub mod json_manager;
pub mod models;
pub mod query;
pub mod schema;
pub mod schema_json;
pub mod security_rules;
pub mod text;
pub mod time;
pub mod tui_form;
pub mod wire;

pub use collections::{
    AutoFieldType, CollectionInfo, CollectionManager, CollectionSchema, FieldInfo,
};
pub use error::{ErrorKind, FirebaseError};
pub use firebase::{FirebaseClient, HttpMethod, HttpRequest, HttpResponse, Reading};
pub use json::{JsonNumber, JsonValue};
pub use json_manager::{
    DataExport, JsonCollection, JsonField, JsonIndex, JsonIndexField, JsonSchema,
    JsonSchemaManager, JsonValidationRule,
};
pub use models::{DecodeError, FirestoreValue, FromFirestore, ToFirestore, User};
pub use query::{create_filter, FieldOperator, QueryBuilder};
pub use schema::{
    Collection, Field, FieldType, Index, IndexField, IndexOrder, SchemaManager, ValidationRule,
    ValidationRuleType,
};
pub use security_rules::{Expression, Permission, RuleBuilder, SecurityRules};
pub use time::Timestamp;
pub use tui_form::{FormAction, FormField, FormKey, TuiForm};
pub use wire::Document;
