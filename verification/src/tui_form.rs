//! The form by which a document is entered field by field: what it holds,
//! what each key does to it, and the document that it stands for.
//!
//! The form draws nothing and reads no keys. A front end shows the form,
//! hands each key to `handle_key`, and does what the answer says.

use vstd::prelude::*;
use crate::collections::{AutoFieldType, CollectionSchema, FieldInfo};
use crate::error::{validation_error, ErrorModel, FirebaseError};
use crate::json::{
    entries_view, json_of_text, lookup, parse_json, set_entry, text_of_json, to_json_text, upsert,
    JsonModel, JsonNumber, JsonNumberModel, JsonValue,
};
use crate::text::{
    ascii_lowered, char_count, concat2, concat3, decimal, decimal_int, format_i64, format_u64,
    insert_char, is_blank, parse_i64, parse_i64_spec, remove_char, str_eq, str_is_blank,
    to_ascii_lower,
};
use crate::time::{instant_of_rfc3339, rfc3339_of_instant, Timestamp};

verus! {

#[derive(Debug)]
pub struct FormField {
    pub name: String,
    pub field_type: String,
    pub value: String,
    pub required: bool,
    pub description: Option<String>,
    pub default_value: Option<String>,
    pub auto_field: Option<AutoFieldType>,
}

#[derive(Debug)]
pub struct TuiForm {
    pub fields: Vec<FormField>,
    /// The field that is being edited, or was edited last.
    pub current_field: usize,
    pub title: String,
    pub help_text: Vec<String>,
    pub error_message: Option<String>,
    pub compact_mode: bool,
    /// Where in the buffer the cursor stands, counted in characters.
    pub cursor_position: usize,
    /// Whether one of the two buttons has the focus.
    pub button_selected: bool,
    /// 0 for the button that submits, 1 for the one that cancels.
    pub selected_button: usize,
    /// The schema that the form was made from.
    pub schema: Option<CollectionSchema>,
    /// Whether a field is being edited.
    pub editing_field: bool,
    /// The text of the field that is being edited, as typed so far.
    pub edit_buffer: String,
}

/// A key, as the form tells keys apart.
#[derive(Debug, Clone, Copy, PartialEq, Eq, Structural)]
pub enum FormKey {
    Tab,
    BackTab,
    Up,
    Down,
    Enter,
    Left,
    Right,
    Home,
    End,
    /// Escape.
    Esc,
    /// The letter c together with the control key.
    CtrlC,
    /// The letter s together with the control key.
    CtrlS,
    Char(char),
    Backspace,
    Delete,
    Other,
}

/// What the front end is to do after a key.
#[derive(Debug, Clone, Copy, PartialEq, Eq, Structural)]
pub enum FormAction {
    /// Show the form again and wait for the next key.
    Continue,
    /// Take the document that the form stands for.
    Submit,
    /// Leave without a document.
    Cancel,
}

/// An example of what to type for a field of the given type.
pub open spec fn example_for_type(field_type: Seq<char>) -> Seq<char> {
    if field_type == "string"@ {
        "\"John Doe\""@
    } else if field_type == "integer"@ {
        "42"@
    } else if field_type == "number"@ {
        "3.14"@
    } else if field_type == "boolean"@ {
        "true"@
    } else if field_type == "array"@ {
        "[\"item1\", \"item2\"]"@
    } else if field_type == "object"@ {
        "{\"key\": \"value\"}"@
    } else if field_type == "timestamp"@ {
        "2024-01-01T12:00:00Z or 'now'"@
    } else {
        "value"@
    }
}

/// An example of what to type for a field of the given type.
pub fn get_example_for_type(field_type: &str) -> (r: String)
    ensures
        r@ == example_for_type(field_type@),
{
    if str_eq(field_type, "string") {
        String::from_str("\"John Doe\"")
    } else if str_eq(field_type, "integer") {
        String::from_str("42")
    } else if str_eq(field_type, "number") {
        String::from_str("3.14")
    } else if str_eq(field_type, "boolean") {
        String::from_str("true")
    } else if str_eq(field_type, "array") {
        String::from_str("[\"item1\", \"item2\"]")
    } else if str_eq(field_type, "object") {
        String::from_str("{\"key\": \"value\"}")
    } else if str_eq(field_type, "timestamp") {
        String::from_str("2024-01-01T12:00:00Z or 'now'")
    } else {
        String::from_str("value")
    }
}

/// The type of field that fits a value.
pub open spec fn inferred_type(value: JsonModel) -> Seq<char> {
    match value {
        JsonModel::String(_) => "string"@,
        JsonModel::Number(JsonNumberModel::Integer(_)) => "integer"@,
        JsonModel::Number(_) => "number"@,
        JsonModel::Bool(_) => "boolean"@,
        JsonModel::Array(_) => "array"@,
        JsonModel::Object(_) => "object"@,
        JsonModel::Null => "string"@,
    }
}

/// The type of field that fits a value.
pub fn infer_field_type(value: &JsonValue) -> (r: String)
    ensures
        r@ == inferred_type(value@),
{
    match value {
        JsonValue::String(_) => String::from_str("string"),
        JsonValue::Number(JsonNumber::Integer(_)) => String::from_str("integer"),
        JsonValue::Number(_) => String::from_str("number"),
        JsonValue::Bool(_) => String::from_str("boolean"),
        JsonValue::Array(_) => String::from_str("array"),
        JsonValue::Object(_) => String::from_str("object"),
        JsonValue::Null => String::from_str("string"),
    }
}

/// The text of a number.
pub open spec fn number_shown(n: JsonNumberModel) -> Seq<char> {
    match n {
        JsonNumberModel::Integer(i) => decimal_int(i as int),
        JsonNumberModel::Unsigned(u) => decimal(u as nat),
        JsonNumberModel::Double(t) => t,
    }
}

/// The text of a truth value.
pub open spec fn bool_shown(b: bool) -> Seq<char> {
    if b {
        "true"@
    } else {
        "false"@
    }
}

/// The JSON text of a value; empty where it has none.
pub open spec fn json_shown(v: JsonModel) -> Seq<char> {
    match text_of_json(v) {
        Some(t) => t,
        None => Seq::empty(),
    }
}

/// The text by which a value is edited.
pub open spec fn editing_text(value: JsonModel) -> Seq<char> {
    match value {
        JsonModel::String(s) => s,
        JsonModel::Number(n) => number_shown(n),
        JsonModel::Bool(b) => bool_shown(b),
        JsonModel::Array(_) => json_shown(value),
        JsonModel::Object(_) => json_shown(value),
        JsonModel::Null => Seq::empty(),
    }
}

fn show_number(n: &JsonNumber) -> (r: String)
    ensures
        r@ == number_shown(n.model()),
{
    match n {
        JsonNumber::Integer(i) => format_i64(*i),
        JsonNumber::Unsigned(u) => format_u64(*u),
        JsonNumber::Double(t) => t.clone(),
    }
}

fn show_bool(b: bool) -> (r: String)
    ensures
        r@ == bool_shown(b),
{
    if b {
        String::from_str("true")
    } else {
        String::from_str("false")
    }
}

fn show_json(v: &JsonValue) -> (r: String)
    ensures
        r@ == json_shown(v@),
{
    match to_json_text(v) {
        Some(t) => t,
        None => String::new(),
    }
}

/// The text by which a value is edited.
pub fn format_value_for_editing(value: &JsonValue) -> (r: String)
    ensures
        r@ == editing_text(value@),
{
    match value {
        JsonValue::String(s) => s.clone(),
        JsonValue::Number(n) => show_number(n),
        JsonValue::Bool(b) => show_bool(*b),
        JsonValue::Array(_) => show_json(value),
        JsonValue::Object(_) => show_json(value),
        JsonValue::Null => String::new(),
    }
}

/// The text by which a value is shown: a string in quotes, an array or an
/// object by its size, anything else as it is edited.
pub open spec fn display_text(value: JsonModel) -> Seq<char> {
    match value {
        JsonModel::String(s) => "\""@ + s + "\""@,
        JsonModel::Array(items) => "Array("@ + decimal(items.len()) + " items)"@,
        JsonModel::Object(entries) => "Object("@ + decimal(entries.len()) + " fields)"@,
        _ => editing_text(value),
    }
}

/// The text by which a value is shown.
pub fn format_value_display(value: &JsonValue) -> (r: String)
    ensures
        r@ == display_text(value@),
{
    match value {
        JsonValue::String(s) => concat3("\"", s.as_str(), "\""),
        JsonValue::Array(items) => {
            proof {
                crate::json::lemma_view_array(*items);
            }
            concat3("Array(", format_u64(items.len() as u64).as_str(), " items)")
        },
        JsonValue::Object(entries) => {
            proof {
                crate::json::lemma_view_object(*entries);
            }
            concat3("Object(", format_u64(entries.len() as u64).as_str(), " fields)")
        },
        _ => format_value_for_editing(value),
    }
}

/// Whether the text, but for the case of its letters, says yes.
pub open spec fn says_true(value: Seq<char>) -> bool {
    let low = ascii_lowered(value);
    low == "true"@ || low == "yes"@ || low == "1"@
}

/// Whether the text, but for the case of its letters, says no.
pub open spec fn says_false(value: Seq<char>) -> bool {
    let low = ascii_lowered(value);
    low == "false"@ || low == "no"@ || low == "0"@
}

/// The number that a text denotes, where it is a JSON number.
pub open spec fn number_of_text(value: Seq<char>) -> Option<JsonNumberModel> {
    match json_of_text(value) {
        Some(JsonModel::Number(n)) => Some(n),
        _ => None,
    }
}

/// The time that a text denotes, brought to the calendar's own form.
pub open spec fn normal_timestamp(value: Seq<char>) -> Option<Seq<char>> {
    match instant_of_rfc3339(value) {
        Some(t) => rfc3339_of_instant(t.0, t.1),
        None => None,
    }
}

/// The failure for a text that is no value of the type asked for.
pub open spec fn invalid_value(what: Seq<char>, value: Seq<char>, hint: Seq<char>) -> ErrorModel {
    validation_error(what + value + hint)
}

/// The value that a text stands for in a field of the given type, with
/// `now` standing for the present time. A blank text is an empty array in a
/// field of arrays, and `null` elsewhere.
pub open spec fn field_value(value: Seq<char>, field_type: Seq<char>, now: Seq<char>) -> Result<
    JsonModel,
    ErrorModel,
> {
    if is_blank(value) {
        if field_type == "array"@ {
            Ok(JsonModel::Array(Seq::empty()))
        } else {
            Ok(JsonModel::Null)
        }
    } else if field_type == "string"@ {
        Ok(JsonModel::String(value))
    } else if field_type == "integer"@ {
        match parse_i64_spec(value) {
            Some(i) => Ok(JsonModel::Number(JsonNumberModel::Integer(i))),
            None => Err(invalid_value("Invalid integer: "@, value, ""@)),
        }
    } else if field_type == "number"@ {
        match number_of_text(value) {
            Some(n) => Ok(JsonModel::Number(n)),
            None => Err(invalid_value("Invalid number: "@, value, ""@)),
        }
    } else if field_type == "boolean"@ {
        if says_true(value) {
            Ok(JsonModel::Bool(true))
        } else if says_false(value) {
            Ok(JsonModel::Bool(false))
        } else {
            Err(invalid_value("Invalid boolean: "@, value, " (use true/false)"@))
        }
    } else if field_type == "array"@ || field_type == "object"@ {
        match json_of_text(value) {
            Some(j) => Ok(j),
            None => Err(invalid_value("Invalid JSON: "@, value, ""@)),
        }
    } else if field_type == "timestamp"@ {
        match normal_timestamp(value) {
            Some(t) => Ok(JsonModel::String(t)),
            None => if ascii_lowered(value) == "now"@ {
                Ok(JsonModel::String(now))
            } else {
                Err(
                    invalid_value(
                        "Invalid timestamp: "@,
                        value,
                        " (use ISO 8601 format or 'now')"@,
                    ),
                )
            },
        }
    } else {
        Ok(JsonModel::String(value))
    }
}

fn invalid(what: &str, value: &str, hint: &str) -> (r: FirebaseError)
    ensures
        r@ == invalid_value(what@, value@, hint@),
{
    FirebaseError::ValidationError(concat3(what, value, hint))
}

fn text_says_true(value: &str) -> (r: bool)
    ensures
        r == says_true(value@),
{
    let low = to_ascii_lower(value);
    str_eq(low.as_str(), "true") || str_eq(low.as_str(), "yes") || str_eq(low.as_str(), "1")
}

fn text_says_false(value: &str) -> (r: bool)
    ensures
        r == says_false(value@),
{
    let low = to_ascii_lower(value);
    str_eq(low.as_str(), "false") || str_eq(low.as_str(), "no") || str_eq(low.as_str(), "0")
}

fn text_number(value: &str) -> (r: Option<JsonNumber>)
    ensures
        match r {
            Some(n) => number_of_text(value@) == Some(n.model()),
            None => number_of_text(value@) is None,
        },
{
    match parse_json(value) {
        Ok(JsonValue::Number(n)) => Some(n),
        _ => None,
    }
}

fn text_timestamp(value: &str) -> (r: Option<String>)
    ensures
        crate::wire::optional_view(r) == normal_timestamp(value@),
{
    match Timestamp::parse(value) {
        Some(t) => Some(t.to_rfc3339()),
        None => None,
    }
}

/// The value that a text stands for in a field of the given type, with
/// `now` standing for the present time.
pub fn parse_field_value(value_str: &str, field_type: &str, now: &str) -> (r: Result<
    JsonValue,
    FirebaseError,
>)
    ensures
        match field_value(value_str@, field_type@, now@) {
            Ok(v) => r matches Ok(x) && x@ == v,
            Err(failure) => r matches Err(e) && e@ == failure,
        },
{
    if str_is_blank(value_str) {
        if str_eq(field_type, "array") {
            let empty: Vec<JsonValue> = Vec::new();
            proof {
                crate::json::lemma_view_array(empty);
                assert(crate::json::values_view(empty@) =~= Seq::empty());
            }
            return Ok(JsonValue::Array(empty));
        }
        return Ok(JsonValue::Null);
    }
    if str_eq(field_type, "string") {
        Ok(JsonValue::String(String::from_str(value_str)))
    } else if str_eq(field_type, "integer") {
        match parse_i64(value_str) {
            Some(i) => Ok(JsonValue::Number(JsonNumber::Integer(i))),
            None => Err(invalid("Invalid integer: ", value_str, "")),
        }
    } else if str_eq(field_type, "number") {
        match text_number(value_str) {
            Some(n) => Ok(JsonValue::Number(n)),
            None => Err(invalid("Invalid number: ", value_str, "")),
        }
    } else if str_eq(field_type, "boolean") {
        if text_says_true(value_str) {
            Ok(JsonValue::Bool(true))
        } else if text_says_false(value_str) {
            Ok(JsonValue::Bool(false))
        } else {
            Err(invalid("Invalid boolean: ", value_str, " (use true/false)"))
        }
    } else if str_eq(field_type, "array") || str_eq(field_type, "object") {
        match parse_json(value_str) {
            Ok(j) => Ok(j),
            Err(_) => Err(invalid("Invalid JSON: ", value_str, "")),
        }
    } else if str_eq(field_type, "timestamp") {
        match text_timestamp(value_str) {
            Some(t) => Ok(JsonValue::String(t)),
            None => {
                if str_eq(to_ascii_lower(value_str).as_str(), "now") {
                    Ok(JsonValue::String(String::from_str(now)))
                } else {
                    Err(
                        invalid(
                            "Invalid timestamp: ",
                            value_str,
                            " (use ISO 8601 format or 'now')",
                        ),
                    )
                }
            },
        }
    } else {
        Ok(JsonValue::String(String::from_str(value_str)))
    }
}

/// What is wrong with a text as the value of a field, if anything: the
/// message that the form shows.
pub open spec fn input_problem(field: FormField, value: Seq<char>) -> Option<Seq<char>> {
    let kind = field.field_type@;
    if is_blank(value) {
        if field.required {
            Some("Required field '"@ + field.name@ + "' cannot be empty"@)
        } else {
            None
        }
    } else if kind == "integer"@ {
        if parse_i64_spec(value) is None {
            Some("Invalid integer. Example: 42, -10, 0"@)
        } else {
            None
        }
    } else if kind == "number"@ {
        if number_of_text(value) is None {
            Some("Invalid number. Example: 3.14, -0.5, 42"@)
        } else {
            None
        }
    } else if kind == "boolean"@ {
        if says_true(value) || says_false(value) {
            None
        } else {
            Some("Invalid boolean. Use: true, false, yes, no, 1, or 0"@)
        }
    } else if kind == "array"@ {
        if json_of_text(value) is None {
            Some("Invalid JSON array. Example: [1, 2, 3] or [\"a\", \"b\"]"@)
        } else {
            None
        }
    } else if kind == "object"@ {
        if json_of_text(value) is None {
            Some("Invalid JSON object. Example: {\"key\": \"value\"}"@)
        } else {
            None
        }
    } else if kind == "timestamp"@ {
        if ascii_lowered(value) != "now"@ && instant_of_rfc3339(value) is None {
            Some("Invalid timestamp. Use ISO format (2024-01-01T12:00:00Z) or 'now'"@)
        } else {
            None
        }
    } else {
        None
    }
}

/// The same field with another value.
pub open spec fn with_value(field: FormField, value: String) -> FormField {
    FormField {
        name: field.name,
        field_type: field.field_type,
        value,
        required: field.required,
        description: field.description,
        default_value: field.default_value,
        auto_field: field.auto_field,
    }
}

/// The two lists hold the same fields but for their values.
pub open spec fn same_fields(a: Seq<FormField>, b: Seq<FormField>) -> bool {
    a.len() == b.len() && forall|i: int|
        0 <= i < a.len() ==> #[trigger] a[i] == with_value(b[i], a[i].value)
}

/// Index of the first required field whose value is blank.
pub open spec fn first_empty_required(fields: Seq<FormField>) -> Option<int>
    decreases fields.len(),
{
    if fields.len() == 0 {
        None
    } else {
        match first_empty_required(fields.drop_last()) {
            Some(i) => Some(i),
            None => if fields.last().required && is_blank(fields.last().value@) {
                Some(fields.len() - 1)
            } else {
                None
            },
        }
    }
}

pub proof fn lemma_first_empty_required_prefix(fields: Seq<FormField>, n: int)
    requires
        0 <= n <= fields.len(),
        first_empty_required(fields.take(n)) is Some,
    ensures
        first_empty_required(fields) == first_empty_required(fields.take(n)),
    decreases fields.len() - n,
{
    if n == fields.len() {
        assert(fields.take(n) =~= fields);
    } else {
        let rest = fields.drop_last();
        assert(rest.take(n) =~= fields.take(n));
        lemma_first_empty_required_prefix(rest, n);
    }
}

impl TuiForm {
    /// The state that every key leaves the form in: there is a field, the
    /// current field is one of the fields, the chosen button is one of the
    /// two, and the cursor stands within the buffer.
    pub open spec fn wf(&self) -> bool {
        &&& self.fields@.len() > 0
        &&& self.current_field < self.fields@.len()
        &&& self.selected_button < 2
        &&& self.cursor_position <= self.edit_buffer@.len()
    }

    /// An empty form, ready for fields to be added.
    pub fn new(title: String) -> (r: Self)
        ensures
            r.title == title,
            r.fields@.len() == 0,
            r.current_field == 0,
            r.error_message is None,
            r.compact_mode,
            r.cursor_position == 0,
            !r.button_selected,
            r.selected_button == 0,
            r.schema is None,
            r.editing_field,
            r.edit_buffer@.len() == 0,
    {
        let mut help_text: Vec<String> = Vec::new();
        help_text.push(
            String::from_str(
                "Tab/Down - Next | Up - Previous | Left Right - Move cursor | Enter on button - Submit/Cancel",
            ),
        );
        Self {
            fields: Vec::new(),
            current_field: 0,
            title,
            help_text,
            error_message: None,
            compact_mode: true,
            cursor_position: 0,
            button_selected: false,
            selected_button: 0,
            schema: None,
            editing_field: true,
            edit_buffer: String::new(),
        }
    }

    /// Adds a field after the fields that are there.
    pub fn add_field(&mut self, field: FormField)
        ensures
            final(self).fields@ == old(self).fields@.push(field),
            final(self).current_field == old(self).current_field,
            final(self).selected_button == old(self).selected_button,
            final(self).cursor_position == old(self).cursor_position,
            final(self).edit_buffer == old(self).edit_buffer,
            final(self).button_selected == old(self).button_selected,
            final(self).editing_field == old(self).editing_field,
            final(self).error_message == old(self).error_message,
            same_frame(*old(self), *final(self)),
    {
        self.fields.push(field);
    }

    /// The first required field that is blank, if there is one: the form
    /// cannot be submitted before it is filled in.
    pub fn validate_all_fields(&self) -> (r: Result<(), String>)
        ensures
            match first_empty_required(self.fields@) {
                Some(i) => r matches Err(message) && message@ == "Required field '"@
                    + self.fields@[i].name@ + "' is empty"@,
                None => r is Ok,
            },
    {
        let mut i: usize = 0;
        proof {
            assert(self.fields@.take(0) =~= Seq::empty());
        }
        while i < self.fields.len()
            invariant
                i <= self.fields.len(),
                first_empty_required(self.fields@.take(i as int)) is None,
            decreases self.fields.len() - i,
        {
            proof {
                let next = self.fields@.take(i + 1);
                assert(next.drop_last() =~= self.fields@.take(i as int));
                assert(next.last() == self.fields@[i as int]);
            }
            let field = &self.fields[i];
            if field.required && str_is_blank(field.value.as_str()) {
                proof {
                    lemma_first_empty_required_prefix(self.fields@, i + 1);
                }
                return Err(concat3("Required field '", field.name.as_str(), "' is empty"));
            }
            i += 1;
        }
        proof {
            assert(self.fields@.take(i as int) =~= self.fields@);
        }
        Ok(())
    }

    /// Checks a text as the value of the field at `index`, and takes it as
    /// the value where nothing is wrong with it. An index beyond the fields
    /// does nothing.
    pub fn validate_and_set_field(&mut self, index: usize, value: &str) -> (r: Result<(), String>)
        ensures
            final(self).current_field == old(self).current_field,
            final(self).selected_button == old(self).selected_button,
            final(self).cursor_position == old(self).cursor_position,
            final(self).edit_buffer == old(self).edit_buffer,
            final(self).button_selected == old(self).button_selected,
            final(self).editing_field == old(self).editing_field,
            final(self).error_message == old(self).error_message,
            same_frame(*old(self), *final(self)),
            same_fields(final(self).fields@, old(self).fields@),
            if index >= old(self).fields@.len() {
                r is Ok && final(self).fields@ == old(self).fields@
            } else {
                match input_problem(old(self).fields@[index as int], value@) {
                    Some(message) => r matches Err(m) && m@ == message && final(self).fields@
                        == old(self).fields@,
                    None => r is Ok && final(self).fields@[index as int].value@ == value@
                        && forall|k: int|
                        0 <= k < old(self).fields@.len() && k != index ==> final(self).fields@[k]
                            == old(self).fields@[k],
                }
            },
    {
        if index >= self.fields.len() {
            return Ok(());
        }
        let field = &self.fields[index];
        let blank = str_is_blank(value);
        if field.required && blank {
            return Err(concat3("Required field '", field.name.as_str(), "' cannot be empty"));
        }
        if !blank {
            let kind = field.field_type.as_str();
            if str_eq(kind, "integer") {
                if parse_i64(value).is_none() {
                    return Err(String::from_str("Invalid integer. Example: 42, -10, 0"));
                }
            } else if str_eq(kind, "number") {
                if text_number(value).is_none() {
                    return Err(String::from_str("Invalid number. Example: 3.14, -0.5, 42"));
                }
            } else if str_eq(kind, "boolean") {
                if !(text_says_true(value) || text_says_false(value)) {
                    return Err(
                        String::from_str("Invalid boolean. Use: true, false, yes, no, 1, or 0"),
                    );
                }
            } else if str_eq(kind, "array") {
                if parse_json(value).is_err() {
                    return Err(
                        String::from_str(
                            "Invalid JSON array. Example: [1, 2, 3] or [\"a\", \"b\"]",
                        ),
                    );
                }
            } else if str_eq(kind, "object") {
                if parse_json(value).is_err() {
                    return Err(
                        String::from_str("Invalid JSON object. Example: {\"key\": \"value\"}"),
                    );
                }
            } else if str_eq(kind, "timestamp") {
                if !str_eq(to_ascii_lower(value).as_str(), "now") && Timestamp::parse(
                    value,
                ).is_none() {
                    return Err(
                        String::from_str(
                            "Invalid timestamp. Use ISO format (2024-01-01T12:00:00Z) or 'now'",
                        ),
                    );
                }
            }
        }
        self.store_value(index, String::from_str(value));
        Ok(())
    }

    /// Takes a text as the value of the field at `index`, unchecked.
    fn store_value(&mut self, index: usize, value: String)
        requires
            index < old(self).fields@.len(),
        ensures
            final(self).fields@ == old(self).fields@.update(
                index as int,
                with_value(old(self).fields@[index as int], value),
            ),
            same_fields(final(self).fields@, old(self).fields@),
            final(self).current_field == old(self).current_field,
            final(self).selected_button == old(self).selected_button,
            final(self).cursor_position == old(self).cursor_position,
            final(self).edit_buffer == old(self).edit_buffer,
            final(self).button_selected == old(self).button_selected,
            final(self).editing_field == old(self).editing_field,
            final(self).error_message == old(self).error_message,
            same_frame(*old(self), *final(self)),
    {
        let mut field = self.fields.remove(index);
        field.value = value;
        self.fields.insert(index, field);
        assert(self.fields@ =~= old(self).fields@.update(
            index as int,
            with_value(old(self).fields@[index as int], value),
        ));
    }
}


/// The hint that a form shows for a field of a schema: the field's first
/// sample value where it has one, else an example for its type.
pub open spec fn schema_hint(field: FieldInfo) -> Seq<char> {
    if field.sample_values@.len() > 0 {
        "example: "@ + field.sample_values@[0]@
    } else {
        "example: "@ + example_for_type(field.field_type@)
    }
}

/// The value that a form starts a field with: an empty array for a field
/// of arrays, nothing elsewhere.
pub open spec fn starting_value(field_type: Seq<char>) -> Seq<char> {
    if field_type == "array"@ {
        "[]"@
    } else {
        Seq::empty()
    }
}

/// `f` is the field of a form for the field `field` of a schema.
pub open spec fn is_form_field(f: FormField, field: FieldInfo) -> bool {
    &&& f.name@ == field.name@
    &&& f.field_type@ == field.field_type@
    &&& f.value@ == starting_value(field.field_type@)
    &&& f.required == field.is_required
    &&& crate::wire::optional_view(f.description) == Some(schema_hint(field))
    &&& crate::wire::optional_view(f.default_value) == Some(starting_value(field.field_type@))
    &&& f.auto_field is None
}

/// The fields of a schema that a form asks for: those that nothing fills
/// in by itself, in order.
pub open spec fn asked_fields(fields: Seq<FieldInfo>) -> Seq<FieldInfo>
    decreases fields.len(),
{
    if fields.len() == 0 {
        Seq::empty()
    } else if fields.last().auto_field is Some {
        asked_fields(fields.drop_last())
    } else {
        asked_fields(fields.drop_last()).push(fields.last())
    }
}

/// `f` is the field that a form holds where its schema asks for nothing.
pub open spec fn is_fallback_field(f: FormField) -> bool {
    &&& f.name@ == "name"@
    &&& f.field_type@ == "string"@
    &&& f.value@.len() == 0
    &&& !f.required
    &&& crate::wire::optional_view(f.description) == Some("example: \"John Doe\""@)
    &&& f.auto_field is None
}

/// `f` is the field of a form for the member `key` of a document, with the
/// value `value`.
pub open spec fn is_editing_field(f: FormField, key: Seq<char>, value: JsonModel) -> bool {
    &&& f.name@ == key
    &&& f.field_type@ == inferred_type(value)
    &&& f.value@ == editing_text(value)
    &&& !f.required
    &&& crate::wire::optional_view(f.description) == Some(
        "current: "@ + display_text(value) + " | example: "@ + example_for_type(
            inferred_type(value),
        ),
    )
    &&& crate::wire::optional_view(f.default_value) == Some(editing_text(value))
    &&& f.auto_field is None
}

fn form_field(field: &FieldInfo) -> (r: FormField)
    ensures
        is_form_field(r, *field),
{
    let empty_value = if str_eq(field.field_type.as_str(), "array") {
        String::from_str("[]")
    } else {
        String::new()
    };
    let example_text = if field.sample_values.len() > 0 {
        concat2("example: ", field.sample_values[0].as_str())
    } else {
        concat2("example: ", get_example_for_type(field.field_type.as_str()).as_str())
    };
    FormField {
        name: field.name.clone(),
        field_type: field.field_type.clone(),
        value: empty_value.clone(),
        required: field.is_required,
        description: Some(example_text),
        default_value: Some(empty_value),
        auto_field: None,
    }
}

/// A copy of a description of a collection.
fn clone_schema(schema: &CollectionSchema) -> (r: CollectionSchema)
    ensures
        r.collection_name@ == schema.collection_name@,
        r.total_documents == schema.total_documents,
        r.fields@.len() == schema.fields@.len(),
        forall|i: int|
            0 <= i < r.fields@.len() ==> (#[trigger] r.fields@[i]).name@ == schema.fields@[i].name@
                && r.fields@[i].auto_field == schema.fields@[i].auto_field,
{
    let mut fields: Vec<FieldInfo> = Vec::new();
    let mut i: usize = 0;
    while i < schema.fields.len()
        invariant
            i <= schema.fields.len(),
            fields@.len() == i,
            forall|k: int|
                0 <= k < i ==> (#[trigger] fields@[k]).name@ == schema.fields@[k].name@
                    && fields@[k].auto_field == schema.fields@[k].auto_field,
        decreases schema.fields.len() - i,
    {
        let f = &schema.fields[i];
        let mut samples: Vec<String> = Vec::new();
        let mut k: usize = 0;
        while k < f.sample_values.len()
            invariant
                k <= f.sample_values.len(),
            decreases f.sample_values.len() - k,
        {
            samples.push(f.sample_values[k].clone());
            k += 1;
        }
        fields.push(
            FieldInfo {
                name: f.name.clone(),
                field_type: f.field_type.clone(),
                is_required: f.is_required,
                sample_values: samples,
                frequency: f.frequency,
                unique_values: f.unique_values,
                auto_field: f.auto_field,
            },
        );
        i += 1;
    }
    let sample_document = match &schema.sample_document {
        Some(d) => Some(d.clone_value()),
        None => None,
    };
    CollectionSchema {
        collection_name: schema.collection_name.clone(),
        total_documents: schema.total_documents,
        fields,
        sample_document,
    }
}

impl TuiForm {
    /// The form by which a document of a collection is created: one field
    /// for each field of the schema that nothing fills in by itself, and a
    /// single field `name` where the schema asks for none.
    pub fn from_schema(collection_name: &str, schema: &CollectionSchema) -> (r: Self)
        ensures
            r.title@ == "Create Document in '"@ + collection_name@ + "'"@,
            r.wf(),
            r.editing_field,
            !r.button_selected,
            r.current_field == 0,
            r.schema is Some,
            ({
                let asked = asked_fields(schema.fields@);
                if asked.len() == 0 {
                    r.fields@.len() == 1 && is_fallback_field(r.fields@[0])
                } else {
                    r.fields@.len() == asked.len() && forall|i: int|
                        0 <= i < asked.len() ==> is_form_field(r.fields@[i], #[trigger] asked[i])
                }
            }),
    {
        let mut form = Self::new(concat3("Create Document in '", collection_name, "'"));
        form.schema = Some(clone_schema(schema));
        let mut i: usize = 0;
        proof {
            assert(schema.fields@.take(0) =~= Seq::empty());
        }
        while i < schema.fields.len()
            invariant
                i <= schema.fields.len(),
                form.title@ == "Create Document in '"@ + collection_name@ + "'"@,
                form.current_field == 0,
                form.selected_button == 0,
                form.cursor_position == 0,
                form.edit_buffer@.len() == 0,
                form.editing_field,
                !form.button_selected,
                form.schema is Some,
                form.fields@.len() == asked_fields(schema.fields@.take(i as int)).len(),
                forall|k: int|
                    0 <= k < form.fields@.len() ==> is_form_field(
                        form.fields@[k],
                        #[trigger] asked_fields(schema.fields@.take(i as int))[k],
                    ),
            decreases schema.fields.len() - i,
        {
            let field = &schema.fields[i];
            proof {
                let next = schema.fields@.take(i + 1);
                assert(next.drop_last() =~= schema.fields@.take(i as int));
                assert(next.last() == schema.fields@[i as int]);
            }
            if field.auto_field.is_none() {
                let f = form_field(field);
                form.fields.push(f);
            }
            i += 1;
        }
        proof {
            assert(schema.fields@.take(i as int) =~= schema.fields@);
        }
        if form.fields.len() == 0 {
            form.add_field(
                FormField {
                    name: String::from_str("name"),
                    field_type: String::from_str("string"),
                    value: String::new(),
                    required: false,
                    description: Some(String::from_str("example: \"John Doe\"")),
                    default_value: Some(String::new()),
                    auto_field: None,
                },
            );
        }
        form.start_editing();
        form
    }

    /// The form by which a document is updated: one field for each member of
    /// the document, with the member's value to start from. A document that is
    /// no object gives a form without fields.
    pub fn from_existing_data(collection_name: &str, document_id: &str, data: &JsonValue) -> (r:
        Self)
        ensures
            r.title@ == "Update Document '"@ + document_id@ + "' in '"@ + collection_name@ + "'"@,
            r.schema is None,
            match data@ {
                JsonModel::Object(entries) => r.fields@.len() == entries.len() && forall|i: int|
                    0 <= i < entries.len() ==> is_editing_field(
                        #[trigger] r.fields@[i],
                        entries[i].0,
                        entries[i].1,
                    ),
                _ => r.fields@.len() == 0,
            },
            r.fields@.len() > 0 ==> r.wf(),
    {
        let mut title = concat3("Update Document '", document_id, "' in '");
        title.append(collection_name);
        title.append("'");
        let mut form = Self::new(title);
        match data {
            JsonValue::Object(map) => {
                proof {
                    crate::json::lemma_view_object(*map);
                }
                let mut i: usize = 0;
                while i < map.len()
                    invariant
                        i <= map.len(),
                        form.title@ == "Update Document '"@ + document_id@ + "' in '"@
                            + collection_name@ + "'"@,
                        form.schema is None,
                        form.current_field == 0,
                        form.selected_button == 0,
                        form.cursor_position == 0,
                        form.edit_buffer@.len() == 0,
                        form.fields@.len() == i,
                        forall|k: int|
                            0 <= k < i ==> is_editing_field(
                                #[trigger] form.fields@[k],
                                map@[k].0@,
                                map@[k].1@,
                            ),
                    decreases map.len() - i,
                {
                    let key = &map[i].0;
                    let value = &map[i].1;
                    let kind = infer_field_type(value);
                    let mut description = concat3(
                        "current: ",
                        format_value_display(value).as_str(),
                        " | example: ",
                    );
                    description.append(get_example_for_type(kind.as_str()).as_str());
                    form.fields.push(
                        FormField {
                            name: key.clone(),
                            field_type: kind,
                            value: format_value_for_editing(value),
                            required: false,
                            description: Some(description),
                            default_value: Some(format_value_for_editing(value)),
                            auto_field: None,
                        },
                    );
                    i += 1;
                }
            },
            _ => {},
        }
        if form.fields.len() > 0 {
            form.start_editing();
        }
        form
    }

    /// Starts to edit the first field: its value goes into the buffer, and
    /// the cursor behind it.
    fn start_editing(&mut self)
        requires
            old(self).fields@.len() > 0,
            old(self).selected_button < 2,
        ensures
            final(self).wf(),
            final(self).fields == old(self).fields,
            final(self).title == old(self).title,
            final(self).schema == old(self).schema,
            final(self).current_field == 0,
            final(self).editing_field,
            !final(self).button_selected,
            final(self).edit_buffer@ == old(self).fields@[0].value@,
            final(self).cursor_position == final(self).edit_buffer@.len(),
    {
        self.current_field = 0;
        self.editing_field = true;
        self.button_selected = false;
        self.edit_buffer = self.fields[0].value.clone();
        self.cursor_position = char_count(self.edit_buffer.as_str());
    }
}


/// The failure for a required field that was left blank.
pub open spec fn left_blank(name: Seq<char>) -> ErrorModel {
    validation_error("Required field '"@ + name + "' cannot be empty"@)
}

/// The members of the document that the fields stand for, with `now` for
/// the present time: each field that is not blank, under its name, in the
/// order of the fields. The first field that holds no value of its type, or
/// is required and blank, is the failure.
pub open spec fn entered_members(fields: Seq<FormField>, now: Seq<char>) -> Result<
    Seq<(Seq<char>, JsonModel)>,
    ErrorModel,
>
    decreases fields.len(),
{
    if fields.len() == 0 {
        Ok(Seq::empty())
    } else {
        match entered_members(fields.drop_last(), now) {
            Err(e) => Err(e),
            Ok(members) => {
                let field = fields.last();
                if !is_blank(field.value@) {
                    match field_value(field.value@, field.field_type@, now) {
                        Ok(v) => Ok(upsert(members, field.name@, v)),
                        Err(e) => Err(e),
                    }
                } else if field.required {
                    Err(left_blank(field.name@))
                } else {
                    Ok(members)
                }
            },
        }
    }
}

pub proof fn lemma_entered_members_prefix(fields: Seq<FormField>, now: Seq<char>, n: int)
    requires
        0 <= n <= fields.len(),
        entered_members(fields.take(n), now) is Err,
    ensures
        entered_members(fields, now) == entered_members(fields.take(n), now),
    decreases fields.len() - n,
{
    if n == fields.len() {
        assert(fields.take(n) =~= fields);
    } else {
        let rest = fields.drop_last();
        assert(rest.take(n) =~= fields.take(n));
        lemma_entered_members_prefix(rest, now, n);
    }
}

/// The members with the generated values of the fields that fill in by
/// themselves: a generated value goes in under the name of such a field, unless
/// the members hold a value under that name already.
pub open spec fn with_generated(
    members: Seq<(Seq<char>, JsonModel)>,
    fields: Seq<FieldInfo>,
    generated: Seq<(Seq<char>, JsonModel)>,
) -> Seq<(Seq<char>, JsonModel)>
    decreases fields.len(),
{
    if fields.len() == 0 {
        members
    } else {
        let before = with_generated(members, fields.drop_last(), generated);
        let field = fields.last();
        if field.auto_field is Some && lookup(before, field.name@) is None {
            match lookup(generated, field.name@) {
                Some(v) => before.push((field.name@, v)),
                None => before,
            }
        } else {
            before
        }
    }
}

/// The fields of the schema that the form was made from; none where it
/// was made from none.
pub open spec fn schema_fields(schema: Option<CollectionSchema>) -> Seq<FieldInfo> {
    match schema {
        Some(s) => s.fields@,
        None => Seq::empty(),
    }
}

impl TuiForm {
    /// The document that the form stands for, with `now` for the present
    /// time and `generated` for the values of the fields that fill in by
    /// themselves. A value that was entered is never replaced by a generated one.
    pub fn to_json(&self, now: &str, generated: &Vec<(String, JsonValue)>) -> (r: Result<
        JsonValue,
        FirebaseError,
    >)
        ensures
            match entered_members(self.fields@, now@) {
                Ok(members) => r matches Ok(v) && v@ == JsonModel::Object(
                    with_generated(members, schema_fields(self.schema), entries_view(generated@)),
                ),
                Err(failure) => r matches Err(e) && e@ == failure,
            },
    {
        let mut map: Vec<(String, JsonValue)> = Vec::new();
        let mut i: usize = 0;
        proof {
            assert(self.fields@.take(0) =~= Seq::empty());
            assert(entries_view(map@) =~= Seq::empty());
        }
        while i < self.fields.len()
            invariant
                i <= self.fields.len(),
                entered_members(self.fields@.take(i as int), now@) == Ok::<
                    Seq<(Seq<char>, JsonModel)>,
                    ErrorModel,
                >(entries_view(map@)),
            decreases self.fields.len() - i,
        {
            let field = &self.fields[i];
            proof {
                let next = self.fields@.take(i + 1);
                assert(next.drop_last() =~= self.fields@.take(i as int));
                assert(next.last() == self.fields@[i as int]);
            }
            if !str_is_blank(field.value.as_str()) {
                match parse_field_value(field.value.as_str(), field.field_type.as_str(), now) {
                    Ok(v) => {
                        set_entry(&mut map, field.name.clone(), v);
                    },
                    Err(e) => {
                        proof {
                            lemma_entered_members_prefix(self.fields@, now@, i + 1);
                        }
                        return Err(e);
                    },
                }
            } else if field.required {
                proof {
                    lemma_entered_members_prefix(self.fields@, now@, i + 1);
                }
                return Err(
                    FirebaseError::ValidationError(
                        concat3("Required field '", field.name.as_str(), "' cannot be empty"),
                    ),
                );
            }
            i += 1;
        }
        proof {
            assert(self.fields@.take(i as int) =~= self.fields@);
        }
        let ghost members = entries_view(map@);
        match &self.schema {
            Some(schema) => {
                let mut k: usize = 0;
                proof {
                    assert(schema.fields@.take(0) =~= Seq::empty());
                }
                while k < schema.fields.len()
                    invariant
                        k <= schema.fields.len(),
                        entries_view(map@) == with_generated(
                            members,
                            schema.fields@.take(k as int),
                            entries_view(generated@),
                        ),
                    decreases schema.fields.len() - k,
                {
                    let field = &schema.fields[k];
                    proof {
                        let next = schema.fields@.take(k + 1);
                        assert(next.drop_last() =~= schema.fields@.take(k as int));
                        assert(next.last() == schema.fields@[k as int]);
                    }
                    if field.auto_field.is_some() && !has_entry(&map, field.name.as_str()) {
                        match get_entry(generated, field.name.as_str()) {
                            Some(v) => {
                                let ghost before = entries_view(map@);
                                map.push((field.name.clone(), v.clone_value()));
                                proof {
                                    assert(entries_view(map@) =~= before.push((field.name@, v@)));
                                }
                            },
                            None => {},
                        }
                    }
                    k += 1;
                }
                proof {
                    assert(schema.fields@.take(k as int) =~= schema.fields@);
                }
            },
            None => {},
        }
        proof {
            crate::json::lemma_view_object(map);
        }
        Ok(JsonValue::Object(map))
    }
}

/// The value of the first entry under `key`.
fn get_entry<'a>(entries: &'a Vec<(String, JsonValue)>, key: &str) -> (r: Option<&'a JsonValue>)
    ensures
        match r {
            Some(v) => lookup(entries_view(entries@), key@) == Some(v@),
            None => lookup(entries_view(entries@), key@) is None,
        },
{
    let ghost model = entries_view(entries@);
    match crate::json::find_key(entries, key) {
        Some(i) => {
            proof {
                assert(model[i as int].0 == key@);
                assert forall|j: int| 0 <= j < i implies (#[trigger] model[j]).0 != key@ by {
                    assert(entries@[j].0@ != key@);
                }
                crate::json::lemma_index_of_key_is(model, key@, i as int);
            }
            Some(&entries[i].1)
        },
        None => {
            proof {
                assert forall|j: int| 0 <= j < model.len() implies (#[trigger] model[j]).0
                    != key@ by {
                    assert(entries@[j].0@ != key@);
                }
                crate::json::lemma_index_of_key_none(model, key@);
            }
            None
        },
    }
}

/// Whether there is an entry under `key`.
fn has_entry(entries: &Vec<(String, JsonValue)>, key: &str) -> (r: bool)
    ensures
        r == lookup(entries_view(entries@), key@) is Some,
{
    get_entry(entries, key).is_some()
}


/// The buffer and the cursor after a key that edits the buffer.
pub open spec fn edited(buffer: Seq<char>, cursor: int, key: FormKey) -> (Seq<char>, int) {
    match key {
        FormKey::Char(c) => (buffer.insert(cursor, c), cursor + 1),
        FormKey::Backspace => if cursor > 0 {
            (buffer.remove(cursor - 1), cursor - 1)
        } else {
            (buffer, cursor)
        },
        FormKey::Delete => if cursor < buffer.len() {
            (buffer.remove(cursor), cursor)
        } else {
            (buffer, cursor)
        },
        FormKey::Left => if cursor > 0 {
            (buffer, cursor - 1)
        } else {
            (buffer, cursor)
        },
        FormKey::Right => if cursor < buffer.len() {
            (buffer, cursor + 1)
        } else {
            (buffer, cursor)
        },
        FormKey::Home => (buffer, 0),
        FormKey::End => (buffer, buffer.len() as int),
        _ => (buffer, cursor),
    }
}

/// Whether a key that edits the buffer changes the text in it.
pub open spec fn changes_text(buffer: Seq<char>, cursor: int, key: FormKey) -> bool {
    match key {
        FormKey::Char(_) => true,
        FormKey::Backspace => cursor > 0,
        FormKey::Delete => cursor < buffer.len(),
        _ => false,
    }
}

/// The message that the form shows, if it shows one.
pub open spec fn shown_error(form: TuiForm) -> Option<Seq<char>> {
    crate::wire::optional_view(form.error_message)
}

/// What no key changes: the title, the help, the mode and the schema.
pub open spec fn same_frame(b: TuiForm, a: TuiForm) -> bool {
    a.title == b.title && a.help_text == b.help_text && a.compact_mode == b.compact_mode && a.schema
        == b.schema
}

/// Where the focus is and what the buffer holds are as they were.
pub open spec fn same_focus(b: TuiForm, a: TuiForm) -> bool {
    &&& a.current_field == b.current_field
    &&& a.cursor_position == b.cursor_position
    &&& a.button_selected == b.button_selected
    &&& a.selected_button == b.selected_button
    &&& a.editing_field == b.editing_field
    &&& a.edit_buffer == b.edit_buffer
}

/// The field at `index` is being edited: its value is in the buffer, the
/// cursor behind it.
pub open spec fn editing(a: TuiForm, index: int) -> bool {
    &&& a.current_field == index
    &&& a.editing_field
    &&& !a.button_selected
    &&& a.edit_buffer@ == a.fields@[index].value@
    &&& a.cursor_position == a.edit_buffer@.len()
}

/// The button that submits has the focus.
pub open spec fn on_buttons(b: TuiForm, a: TuiForm) -> bool {
    &&& a.button_selected
    &&& a.selected_button == 0
    &&& !a.editing_field
    &&& a.current_field == b.current_field
    &&& a.cursor_position == b.cursor_position
    &&& a.edit_buffer == b.edit_buffer
}

/// The fields are as they were, but that the field at `index` has the value `text`.
pub open spec fn stored(before: Seq<FormField>, after: Seq<FormField>, index: int, text: Seq<char>) -> bool {
    &&& same_fields(after, before)
    &&& after[index].value@ == text
    &&& forall|k: int| 0 <= k < before.len() && k != index ==> after[k] == before[k]
}

/// What Tab, Down and Enter do to a field that is being edited: where
/// something is wrong with the buffer, the form says what and stays; else the
/// buffer becomes the value of the field, and the next field is edited, or
/// the buttons get the focus behind the last field.
pub open spec fn advanced(b: TuiForm, a: TuiForm) -> bool {
    let i = b.current_field as int;
    match input_problem(b.fields@[i], b.edit_buffer@) {
        Some(message) => a.fields@ == b.fields@ && shown_error(a) == Some(message) && same_focus(
            b,
            a,
        ),
        None => stored(b.fields@, a.fields@, i, b.edit_buffer@) && a.error_message is None && (if i
            < b.fields@.len() - 1 {
            editing(a, i + 1) && a.selected_button == b.selected_button
        } else {
            on_buttons(b, a)
        }),
    }
}

/// What Up and BackTab do to a field that is being edited: the buffer
/// becomes the value of the field, unchecked, and the field at `target` is
/// edited; with no target the form stays where it is.
pub open spec fn went_back(b: TuiForm, a: TuiForm, target: Option<int>) -> bool {
    &&& stored(b.fields@, a.fields@, b.current_field as int, b.edit_buffer@)
    &&& a.error_message is None
    &&& a.selected_button == b.selected_button
    &&& match target {
        Some(index) => editing(a, index),
        None => a.current_field == b.current_field && a.cursor_position == b.cursor_position
            && a.button_selected == b.button_selected && a.editing_field == b.editing_field
            && a.edit_buffer == b.edit_buffer,
    }
}

/// The focus goes from the buttons back to the last field.
pub open spec fn back_to_last(b: TuiForm, a: TuiForm) -> bool {
    &&& a.fields == b.fields
    &&& a.error_message == b.error_message
    &&& a.selected_button == b.selected_button
    &&& editing(a, b.fields@.len() - 1)
}

/// The other button, or a given one, is chosen; nothing else changes.
pub open spec fn chosen(b: TuiForm, a: TuiForm, button: int) -> bool {
    &&& a.fields == b.fields
    &&& a.error_message == b.error_message
    &&& a.selected_button == button
    &&& a.current_field == b.current_field
    &&& a.cursor_position == b.cursor_position
    &&& a.button_selected == b.button_selected
    &&& a.editing_field == b.editing_field
    &&& a.edit_buffer == b.edit_buffer
}

/// What pressing the button that submits does: with every required field
/// filled in the form is submitted as it is; else it says which field is
/// missing and stays.
pub open spec fn pressed_submit(b: TuiForm, a: TuiForm, r: FormAction) -> bool {
    &&& a.fields == b.fields
    &&& same_focus(b, a)
    &&& match first_empty_required(b.fields@) {
        None => r is Submit && a.error_message == b.error_message,
        Some(i) => r is Continue && shown_error(a) == Some(
            "Required field '"@ + b.fields@[i].name@ + "' is empty"@,
        ),
    }
}

/// What Control-S does to a field that is being edited: the buffer is
/// checked and taken as with Tab, and then the form is submitted as with the
/// button.
pub open spec fn saved(b: TuiForm, a: TuiForm, r: FormAction) -> bool {
    let i = b.current_field as int;
    match input_problem(b.fields@[i], b.edit_buffer@) {
        Some(message) => r is Continue && a.fields@ == b.fields@ && shown_error(a) == Some(
            message,
        ) && same_focus(b, a),
        None => stored(b.fields@, a.fields@, i, b.edit_buffer@) && same_focus(b, a)
            && match first_empty_required(a.fields@) {
            None => r is Submit && a.error_message is None,
            Some(k) => r is Continue && shown_error(a) == Some(
                "Required field '"@ + a.fields@[k].name@ + "' is empty"@,
            ),
        },
    }
}

/// What a key that edits the buffer does: the buffer and the cursor
/// change as `edited` says, and a change of the text takes the message away.
pub open spec fn edited_buffer(b: TuiForm, a: TuiForm, key: FormKey) -> bool {
    &&& a.fields == b.fields
    &&& (a.edit_buffer@, a.cursor_position as int) == edited(
        b.edit_buffer@,
        b.cursor_position as int,
        key,
    )
    &&& a.current_field == b.current_field
    &&& a.button_selected == b.button_selected
    &&& a.selected_button == b.selected_button
    &&& a.editing_field == b.editing_field
    &&& if changes_text(b.edit_buffer@, b.cursor_position as int, key) {
        a.error_message is None
    } else {
        a.error_message == b.error_message
    }
}

/// What a key does while a field is being edited.
pub open spec fn editing_effect(b: TuiForm, key: FormKey, a: TuiForm, r: FormAction) -> bool {
    let last = b.fields@.len() - 1;
    match key {
        FormKey::Tab => r is Continue && if b.button_selected {
            chosen(b, a, (b.selected_button + 1) % 2)
        } else {
            advanced(b, a)
        },
        FormKey::BackTab => r is Continue && if b.button_selected {
            if b.selected_button > 0 {
                chosen(b, a, b.selected_button - 1)
            } else {
                back_to_last(b, a)
            }
        } else {
            went_back(
                b,
                a,
                Some(
                    if b.current_field > 0 {
                        b.current_field - 1
                    } else {
                        last
                    },
                ),
            )
        },
        FormKey::Up => r is Continue && if b.button_selected {
            back_to_last(b, a)
        } else {
            went_back(
                b,
                a,
                if b.current_field > 0 {
                    Some(b.current_field - 1)
                } else {
                    None
                },
            )
        },
        FormKey::Down => r is Continue && if b.button_selected {
            a == b
        } else {
            advanced(b, a)
        },
        FormKey::Enter => if b.button_selected {
            if b.selected_button == 0 {
                pressed_submit(b, a, r)
            } else {
                r is Cancel && a == b
            }
        } else {
            r is Continue && advanced(b, a)
        },
        FormKey::Esc => r is Cancel && a == b,
        FormKey::CtrlC => r is Cancel && a == b,
        FormKey::CtrlS => saved(b, a, r),
        FormKey::Other => r is Continue && a == b,
        _ => r is Continue && edited_buffer(b, a, key),
    }
}

/// What a key does while the buttons have the focus.
pub open spec fn button_effect(b: TuiForm, key: FormKey, a: TuiForm, r: FormAction) -> bool {
    match key {
        FormKey::Left => r is Continue && chosen(b, a, 0),
        FormKey::Right => r is Continue && chosen(b, a, 1),
        FormKey::Tab => r is Continue && chosen(b, a, (b.selected_button + 1) % 2),
        FormKey::Enter => if b.selected_button == 0 {
            pressed_submit(b, a, r)
        } else {
            r is Cancel && a == b
        },
        FormKey::Up => r is Continue && back_to_last(b, a),
        FormKey::Esc => r is Cancel && a == b,
        FormKey::CtrlC => r is Cancel && a == b,
        _ => r is Continue && a == b,
    }
}

/// What a key does to the form `b`: the form `a` that it leaves, and the
/// answer `r` to the front end.
pub open spec fn key_effect(b: TuiForm, key: FormKey, a: TuiForm, r: FormAction) -> bool {
    same_frame(b, a) && if b.editing_field {
        editing_effect(b, key, a, r)
    } else if b.button_selected {
        button_effect(b, key, a, r)
    } else {
        r is Continue && a.fields == b.fields && a.error_message == b.error_message
            && a.selected_button == b.selected_button && editing(a, b.current_field as int)
    }
}

impl TuiForm {
    /// Brings the field at `index` into the buffer, the cursor behind its value.
    fn load_field(&mut self, index: usize)
        requires
            old(self).wf(),
            index < old(self).fields@.len(),
        ensures
            final(self).wf(),
            same_frame(*old(self), *final(self)),
            final(self).fields == old(self).fields,
            final(self).error_message == old(self).error_message,
            final(self).selected_button == old(self).selected_button,
            editing(*final(self), index as int),
    {
        self.current_field = index;
        self.editing_field = true;
        self.button_selected = false;
        self.edit_buffer = self.fields[index].value.clone();
        self.cursor_position = char_count(self.edit_buffer.as_str());
    }

    /// Gives the focus to the button that submits.
    fn focus_buttons(&mut self)
        requires
            old(self).wf(),
        ensures
            final(self).wf(),
            same_frame(*old(self), *final(self)),
            final(self).fields == old(self).fields,
            final(self).error_message == old(self).error_message,
            on_buttons(*old(self), *final(self)),
    {
        self.button_selected = true;
        self.selected_button = 0;
        self.editing_field = false;
    }

    /// Takes the buffer as the value of the current field where nothing is
    /// wrong with it, and goes on to the next field, or to the buttons behind
    /// the last field.
    fn advance(&mut self)
        requires
            old(self).wf(),
        ensures
            final(self).wf(),
            same_frame(*old(self), *final(self)),
            same_fields(final(self).fields@, old(self).fields@),
            advanced(*old(self), *final(self)),
    {
        let buffer = self.edit_buffer.clone();
        let current = self.current_field;
        match self.validate_and_set_field(current, buffer.as_str()) {
            Err(e) => {
                self.error_message = Some(e);
            },
            Ok(_) => {
                self.error_message = None;
                if current < self.fields.len() - 1 {
                    self.load_field(current + 1);
                } else {
                    self.focus_buttons();
                }
            },
        }
    }

    /// Takes the buffer as the value of the current field, unchecked.
    fn keep_buffer(&mut self)
        requires
            old(self).wf(),
        ensures
            final(self).wf(),
            same_frame(*old(self), *final(self)),
            same_fields(final(self).fields@, old(self).fields@),
            went_back(*old(self), *final(self), None),
    {
        let buffer = self.edit_buffer.clone();
        let current = self.current_field;
        self.store_value(current, buffer);
        self.error_message = None;
    }

    /// Submits where every required field is filled in; says what is
    /// missing otherwise.
    fn try_submit(&mut self) -> (r: FormAction)
        requires
            old(self).wf(),
        ensures
            final(self).wf(),
            same_frame(*old(self), *final(self)),
            pressed_submit(*old(self), *final(self), r),
    {
        match self.validate_all_fields() {
            Err(e) => {
                self.error_message = Some(e);
                FormAction::Continue
            },
            Ok(_) => FormAction::Submit,
        }
    }

    /// What a key does to the form, and what the front end is to do next.
    ///
    /// While a field is edited: a character goes into the buffer at the
    /// cursor; Backspace and Delete take one out; Left, Right, Home and End
    /// move the cursor. Tab, Down and Enter check the buffer, take it as the
    /// field's value and go on to the next field, or to the buttons behind the
    /// last one; where the buffer is no value of the field's type they stay
    /// and say why. Up and BackTab take the buffer unchecked and go back.
    /// Control-S checks the buffer and submits. Escape and Control-C cancel.
    /// On the buttons: Left, Right and Tab choose, Enter presses, Up goes back
    /// to the last field, Escape and Control-C cancel. Submitting needs every
    /// required field filled in.
    pub fn handle_key(&mut self, key: FormKey) -> (r: FormAction)
        requires
            old(self).wf(),
        ensures
            final(self).wf(),
            same_fields(final(self).fields@, old(self).fields@),
            key_effect(*old(self), key, *final(self), r),
            r is Submit ==> first_empty_required(final(self).fields@) is None,
    {
        if self.editing_field {
            match key {
                FormKey::Tab => {
                    if !self.button_selected {
                        self.advance();
                    } else {
                        self.selected_button = (self.selected_button + 1) % 2;
                    }
                    FormAction::Continue
                },
                FormKey::BackTab => {
                    if self.button_selected {
                        if self.selected_button > 0 {
                            self.selected_button = self.selected_button - 1;
                        } else {
                            let last = self.fields.len() - 1;
                            self.load_field(last);
                        }
                    } else {
                        self.keep_buffer();
                        let target = if self.current_field > 0 {
                            self.current_field - 1
                        } else {
                            self.fields.len() - 1
                        };
                        self.load_field(target);
                    }
                    FormAction::Continue
                },
                FormKey::Up => {
                    if self.button_selected {
                        let last = self.fields.len() - 1;
                        self.load_field(last);
                    } else {
                        self.keep_buffer();
                        if self.current_field > 0 {
                            let target = self.current_field - 1;
                            self.load_field(target);
                        }
                    }
                    FormAction::Continue
                },
                FormKey::Down => {
                    if !self.button_selected {
                        self.advance();
                    }
                    FormAction::Continue
                },
                FormKey::Enter => {
                    if self.button_selected {
                        if self.selected_button == 0 {
                            self.try_submit()
                        } else {
                            FormAction::Cancel
                        }
                    } else {
                        self.advance();
                        FormAction::Continue
                    }
                },
                FormKey::Left => {
                    if self.cursor_position > 0 {
                        self.cursor_position = self.cursor_position - 1;
                    }
                    FormAction::Continue
                },
                FormKey::Right => {
                    if self.cursor_position < char_count(self.edit_buffer.as_str()) {
                        self.cursor_position = self.cursor_position + 1;
                    }
                    FormAction::Continue
                },
                FormKey::Home => {
                    self.cursor_position = 0;
                    FormAction::Continue
                },
                FormKey::End => {
                    self.cursor_position = char_count(self.edit_buffer.as_str());
                    FormAction::Continue
                },
                FormKey::Esc => FormAction::Cancel,
                FormKey::CtrlC => FormAction::Cancel,
                FormKey::CtrlS => {
                    let buffer = self.edit_buffer.clone();
                    let current = self.current_field;
                    match self.validate_and_set_field(current, buffer.as_str()) {
                        Err(e) => {
                            self.error_message = Some(e);
                            FormAction::Continue
                        },
                        Ok(_) => {
                            self.error_message = None;
                            self.try_submit()
                        },
                    }
                },
                FormKey::Char(c) => {
                    let buffer = insert_char(self.edit_buffer.as_str(), self.cursor_position, c);
                    let length = char_count(buffer.as_str());
                    self.edit_buffer = buffer;
                    self.cursor_position = if self.cursor_position < length {
                        self.cursor_position + 1
                    } else {
                        length
                    };
                    self.error_message = None;
                    FormAction::Continue
                },
                FormKey::Backspace => {
                    if self.cursor_position > 0 {
                        self.cursor_position = self.cursor_position - 1;
                        self.edit_buffer = remove_char(
                            self.edit_buffer.as_str(),
                            self.cursor_position,
                        );
                        self.error_message = None;
                    }
                    FormAction::Continue
                },
                FormKey::Delete => {
                    if self.cursor_position < char_count(self.edit_buffer.as_str()) {
                        self.edit_buffer = remove_char(
                            self.edit_buffer.as_str(),
                            self.cursor_position,
                        );
                        self.error_message = None;
                    }
                    FormAction::Continue
                },
                FormKey::Other => FormAction::Continue,
            }
        } else if self.button_selected {
            match key {
                FormKey::Left => {
                    self.selected_button = 0;
                    FormAction::Continue
                },
                FormKey::Right => {
                    self.selected_button = 1;
                    FormAction::Continue
                },
                FormKey::Tab => {
                    self.selected_button = (self.selected_button + 1) % 2;
                    FormAction::Continue
                },
                FormKey::Enter => {
                    if self.selected_button == 0 {
                        self.try_submit()
                    } else {
                        FormAction::Cancel
                    }
                },
                FormKey::Up => {
                    let last = self.fields.len() - 1;
                    self.load_field(last);
                    FormAction::Continue
                },
                FormKey::Esc => FormAction::Cancel,
                FormKey::CtrlC => FormAction::Cancel,
                _ => FormAction::Continue,
            }
        } else {
            let current = self.current_field;
            self.load_field(current);
            FormAction::Continue
        }
    }
}

} // verus!
