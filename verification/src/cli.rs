//! What a command line needs around the client: documents given as
//! `key=value` arguments or as JSON or YAML text, the time stamps that every
//! write carries, and values shown as short texts.

use vstd::prelude::*;
use crate::error::{validation_error, ErrorKind, ErrorModel, FirebaseError};
use crate::json::{
    entries_view, json_of_text, lemma_view_object, lookup, parse_json, parse_yaml, set_entry,
    upsert, yaml_of_text, JsonModel, JsonNumber, JsonNumberModel, JsonValue,
};
use crate::text::{
    ascii_lowered, char_count, concat2, concat3, decimal, eq_ignore_ascii_case, format_u64,
    from_char_range, has_prefix, parse_i64, parse_i64_spec, split_once, split_once_spec,
    str_eq, take_chars, to_chars, trim, trimmed,
};
use crate::tui_form::{bool_shown, number_of_text, number_shown};

verus! {

/// Whether the text starts with `open` and ends with `close`.
pub open spec fn enclosed(s: Seq<char>, open: char, close: char) -> bool {
    s.len() > 0 && s[0] == open && s.last() == close
}

/// Whether the text stands in quotes, double or single.
pub open spec fn quoted(s: Seq<char>) -> bool {
    s.len() >= 2 && (enclosed(s, '"', '"') || enclosed(s, '\'', '\''))
}

/// The failure for a text in brackets or braces that is no JSON.
pub open spec fn is_invalid_json(e: ErrorModel, text: Seq<char>) -> bool {
    e.kind == ErrorKind::Validation && has_prefix(
        e.detail,
        "Invalid JSON in '"@ + text + "': "@,
    )
}

/// The value that a text stands for, its kind read off the text itself,
/// with `now` for the present time: `null` and `none` are null, `true`, `yes`,
/// `false` and `no` are truth values (all of these whatever the case of
/// their letters), a text in brackets or braces is JSON, a text in quotes is
/// the string within, a number is a number, `now` is the present time, and
/// anything else is a string. White space around the text does not count.
pub open spec fn inferred_value(value: Seq<char>, now: Seq<char>) -> Option<JsonModel> {
    let t = trimmed(value);
    let low = ascii_lowered(t);
    if t.len() == 0 {
        Some(JsonModel::String(Seq::empty()))
    } else if low == "null"@ || low == "none"@ {
        Some(JsonModel::Null)
    } else if low == "true"@ || low == "yes"@ {
        Some(JsonModel::Bool(true))
    } else if low == "false"@ || low == "no"@ {
        Some(JsonModel::Bool(false))
    } else if enclosed(t, '[', ']') || enclosed(t, '{', '}') {
        json_of_text(t)
    } else if quoted(t) {
        Some(JsonModel::String(t.subrange(1, t.len() - 1)))
    } else if parse_i64_spec(t) is Some {
        Some(JsonModel::Number(JsonNumberModel::Integer(parse_i64_spec(t)->0)))
    } else if number_of_text(t) is Some {
        Some(JsonModel::Number(number_of_text(t)->0))
    } else if low == "now"@ {
        Some(JsonModel::String(now))
    } else {
        Some(JsonModel::String(t))
    }
}

fn is_enclosed(chars: &Vec<char>, open: char, close: char) -> (r: bool)
    ensures
        r == enclosed(chars@, open, close),
{
    chars.len() > 0 && chars[0] == open && chars[chars.len() - 1] == close
}

fn word_is(text: &str, word: &str) -> (r: bool)
    ensures
        r == (ascii_lowered(text@) == ascii_lowered(word@)),
{
    eq_ignore_ascii_case(text, word)
}

proof fn lemma_lower_words()
    ensures
        ascii_lowered("null"@) == "null"@,
        ascii_lowered("none"@) == "none"@,
        ascii_lowered("true"@) == "true"@,
        ascii_lowered("yes"@) == "yes"@,
        ascii_lowered("false"@) == "false"@,
        ascii_lowered("no"@) == "no"@,
        ascii_lowered("now"@) == "now"@,
{
    reveal_strlit("null");
    reveal_strlit("none");
    reveal_strlit("true");
    reveal_strlit("yes");
    reveal_strlit("false");
    reveal_strlit("no");
    reveal_strlit("now");
    assert(ascii_lowered("null"@) =~= "null"@);
    assert(ascii_lowered("none"@) =~= "none"@);
    assert(ascii_lowered("true"@) =~= "true"@);
    assert(ascii_lowered("yes"@) =~= "yes"@);
    assert(ascii_lowered("false"@) =~= "false"@);
    assert(ascii_lowered("no"@) =~= "no"@);
    assert(ascii_lowered("now"@) =~= "now"@);
}

/// The value that a text stands for, its kind read off the text itself.
/// A text in brackets or braces that is no JSON is a `ValidationError`.
pub fn parse_field_value_with_inference(value_str: &str, now: &str) -> (r: Result<
    JsonValue,
    FirebaseError,
>)
    ensures
        match inferred_value(value_str@, now@) {
            Some(v) => r matches Ok(x) && x@ == v,
            None => r matches Err(e) && is_invalid_json(e@, trimmed(value_str@)),
        },
{
    proof {
        lemma_lower_words();
    }
    let text = trim(value_str);
    let t = text.as_str();
    let chars = to_chars(t);
    if chars.len() == 0 {
        return Ok(JsonValue::String(String::new()));
    }
    if word_is(t, "null") || word_is(t, "none") {
        return Ok(JsonValue::Null);
    }
    if word_is(t, "true") || word_is(t, "yes") {
        return Ok(JsonValue::Bool(true));
    }
    if word_is(t, "false") || word_is(t, "no") {
        return Ok(JsonValue::Bool(false));
    }
    if is_enclosed(&chars, '[', ']') || is_enclosed(&chars, '{', '}') {
        return match parse_json(t) {
            Ok(j) => Ok(j),
            Err(e) => {
                let mut message = concat3("Invalid JSON in '", t, "': ");
                let ghost head = message@;
                message.append(e.detail());
                proof {
                    assert(message@.take(head.len() as int) =~= head);
                }
                Err(FirebaseError::ValidationError(message))
            },
        };
    }
    if chars.len() >= 2 && (is_enclosed(&chars, '"', '"') || is_enclosed(&chars, '\'', '\'')) {
        return Ok(JsonValue::String(from_char_range(&chars, 1, chars.len() - 1)));
    }
    if let Some(i) = parse_i64(t) {
        return Ok(JsonValue::Number(JsonNumber::Integer(i)));
    }
    if let Ok(JsonValue::Number(n)) = parse_json(t) {
        return Ok(JsonValue::Number(n));
    }
    if word_is(t, "now") {
        return Ok(JsonValue::String(String::from_str(now)));
    }
    Ok(JsonValue::String(text))
}

/// The name and the value in one argument: what stands before the first
/// `=`, or else before the first `:`, and what stands after it, both without
/// the white space around them.
pub open spec fn argument_parts(argument: Seq<char>) -> Option<(Seq<char>, Seq<char>)> {
    match split_once_spec(argument, '=') {
        Some((k, v)) => Some((trimmed(k), trimmed(v))),
        None => match split_once_spec(argument, ':') {
            Some((k, v)) => Some((trimmed(k), trimmed(v))),
            None => None,
        },
    }
}

/// The failure for an argument without `=` and `:`.
pub open spec fn bad_format(argument: Seq<char>) -> ErrorModel {
    validation_error(
        "Invalid field format '"@ + argument + "'. Use 'key=value' or 'key:value'"@,
    )
}

/// The failure for an argument without a name.
pub open spec fn no_name(argument: Seq<char>) -> ErrorModel {
    validation_error("Empty field name in '"@ + argument + "'"@)
}

/// What one argument adds to the members of a document, or why it cannot.
pub open spec fn with_argument(
    members: Seq<(Seq<char>, JsonModel)>,
    argument: Seq<char>,
    now: Seq<char>,
) -> Option<Seq<(Seq<char>, JsonModel)>> {
    match argument_parts(argument) {
        None => None,
        Some((key, value)) => if key.len() == 0 {
            None
        } else {
            match inferred_value(value, now) {
                Some(v) => Some(upsert(members, key, v)),
                None => None,
            }
        },
    }
}

/// Why an argument cannot be taken, if it cannot.
pub open spec fn argument_problem(argument: Seq<char>, now: Seq<char>, e: ErrorModel) -> bool {
    match argument_parts(argument) {
        None => e == bad_format(argument),
        Some((key, value)) => if key.len() == 0 {
            e == no_name(argument)
        } else {
            inferred_value(value, now) is None && is_invalid_json(e, trimmed(value))
        },
    }
}

/// The members of the document that the arguments stand for: each
/// argument sets the member of its name, a later one replacing an earlier one.
/// `None` where an argument cannot be taken.
pub open spec fn argument_members(arguments: Seq<Seq<char>>, now: Seq<char>) -> Option<
    Seq<(Seq<char>, JsonModel)>,
>
    decreases arguments.len(),
{
    if arguments.len() == 0 {
        Some(Seq::empty())
    } else {
        match argument_members(arguments.drop_last(), now) {
            None => None,
            Some(members) => with_argument(members, arguments.last(), now),
        }
    }
}

/// Index of the first argument that cannot be taken.
pub open spec fn first_bad_argument(arguments: Seq<Seq<char>>, now: Seq<char>) -> Option<int>
    decreases arguments.len(),
{
    if arguments.len() == 0 {
        None
    } else {
        match first_bad_argument(arguments.drop_last(), now) {
            Some(i) => Some(i),
            None => if argument_members(arguments, now) is None {
                Some(arguments.len() - 1)
            } else {
                None
            },
        }
    }
}

pub proof fn lemma_first_bad_argument(arguments: Seq<Seq<char>>, now: Seq<char>)
    ensures
        first_bad_argument(arguments, now) is None <==> argument_members(arguments, now) is Some,
    decreases arguments.len(),
{
    if arguments.len() > 0 {
        lemma_first_bad_argument(arguments.drop_last(), now);
    }
}

pub proof fn lemma_first_bad_argument_prefix(arguments: Seq<Seq<char>>, now: Seq<char>, n: int)
    requires
        0 <= n <= arguments.len(),
        first_bad_argument(arguments.take(n), now) is Some,
    ensures
        first_bad_argument(arguments, now) == first_bad_argument(arguments.take(n), now),
    decreases arguments.len() - n,
{
    if n == arguments.len() {
        assert(arguments.take(n) =~= arguments);
    } else {
        let rest = arguments.drop_last();
        assert(rest.take(n) =~= arguments.take(n));
        lemma_first_bad_argument_prefix(rest, now, n);
    }
}

/// The document that `key=value` arguments stand for, with `now` for the
/// present time. An argument without `=` and `:`, one without a name, and one
/// whose value is broken JSON are `ValidationError`s, the first such argument
/// deciding; so is a list without arguments.
pub fn parse_field_arguments(fields: &Vec<String>, now: &str) -> (r: Result<
    JsonValue,
    FirebaseError,
>)
    ensures
        match first_bad_argument(crate::text::texts(fields@), now@) {
            Some(i) => r matches Err(e) && argument_problem(fields@[i]@, now@, e@),
            None => match argument_members(crate::text::texts(fields@), now@) {
                Some(members) => if members.len() == 0 {
                    r matches Err(e) && e@ == validation_error("No valid fields provided"@)
                } else {
                    r matches Ok(v) && v@ == JsonModel::Object(members)
                },
                None => false,
            },
        },
{
    let ghost arguments = crate::text::texts(fields@);
    let mut map: Vec<(String, JsonValue)> = Vec::new();
    let mut i: usize = 0;
    proof {
        assert(arguments.take(0) =~= Seq::empty());
        assert(entries_view(map@) =~= Seq::empty());
    }
    while i < fields.len()
        invariant
            i <= fields.len(),
            arguments == crate::text::texts(fields@),
            first_bad_argument(arguments.take(i as int), now@) is None,
            argument_members(arguments.take(i as int), now@) == Some(entries_view(map@)),
        decreases fields.len() - i,
    {
        let argument = fields[i].as_str();
        proof {
            let next = arguments.take(i + 1);
            assert(next.drop_last() =~= arguments.take(i as int));
            assert(next.last() == fields@[i as int]@);
        }
        let parts = match split_once(argument, '=') {
            Some(parts) => Some(parts),
            None => split_once(argument, ':'),
        };
        let (raw_key, raw_value) = match parts {
            Some(parts) => parts,
            None => {
                proof {
                    lemma_first_bad_argument_prefix(arguments, now@, i + 1);
                }
                return Err(
                    FirebaseError::ValidationError(
                        concat3(
                            "Invalid field format '",
                            argument,
                            "'. Use 'key=value' or 'key:value'",
                        ),
                    ),
                );
            },
        };
        let key = trim(raw_key.as_str());
        let value_text = trim(raw_value.as_str());
        if char_count(key.as_str()) == 0 {
            proof {
                lemma_first_bad_argument_prefix(arguments, now@, i + 1);
            }
            return Err(
                FirebaseError::ValidationError(concat3("Empty field name in '", argument, "'")),
            );
        }
        match parse_field_value_with_inference(value_text.as_str(), now) {
            Ok(v) => {
                set_entry(&mut map, key, v);
            },
            Err(e) => {
                proof {
                    lemma_first_bad_argument_prefix(arguments, now@, i + 1);
                }
                return Err(e);
            },
        }
        i += 1;
    }
    proof {
        assert(arguments.take(i as int) =~= arguments);
        lemma_first_bad_argument(arguments, now@);
    }
    if map.len() == 0 {
        return Err(FirebaseError::ValidationError(String::from_str("No valid fields provided")));
    }
    proof {
        lemma_view_object(map);
    }
    Ok(JsonValue::Object(map))
}


/// The members with the time stamps of a write at the time `now`:
/// `created_at` where there is none yet, and `updated_at` in any case.
pub open spec fn stamped(members: Seq<(Seq<char>, JsonModel)>, now: Seq<char>) -> Seq<
    (Seq<char>, JsonModel),
> {
    let created = if lookup(members, "created_at"@) is Some {
        members
    } else {
        members.push(("created_at"@, JsonModel::String(now)))
    };
    upsert(created, "updated_at"@, JsonModel::String(now))
}

/// Stamps the members of a document that is written at the time `now`.
pub fn add_automatic_timestamps(map: &mut Vec<(String, JsonValue)>, now: &str)
    ensures
        entries_view(final(map)@) == stamped(entries_view(old(map)@), now@),
{
    if !has_member(map, "created_at") {
        let ghost before = entries_view(map@);
        map.push((String::from_str("created_at"), JsonValue::String(String::from_str(now))));
        assert(entries_view(map@) =~= before.push(("created_at"@, JsonModel::String(now@))));
    }
    set_entry(map, String::from_str("updated_at"), JsonValue::String(String::from_str(now)));
}

fn has_member(map: &Vec<(String, JsonValue)>, key: &str) -> (r: bool)
    ensures
        r == lookup(entries_view(map@), key@) is Some,
{
    let ghost model = entries_view(map@);
    match crate::json::find_key(map, key) {
        Some(i) => {
            proof {
                assert(model[i as int].0 == key@);
                assert forall|j: int| 0 <= j < i implies (#[trigger] model[j]).0 != key@ by {
                    assert(map@[j].0@ != key@);
                }
                crate::json::lemma_index_of_key_is(model, key@, i as int);
            }
            true
        },
        None => {
            proof {
                assert forall|j: int| 0 <= j < model.len() implies (#[trigger] model[j]).0
                    != key@ by {
                    assert(map@[j].0@ != key@);
                }
                crate::json::lemma_index_of_key_none(model, key@);
            }
            false
        },
    }
}

/// A document that is created at the time `now`: an object gets its time
/// stamps, anything else stays as it is.
pub fn add_timestamps_to_document(data: JsonValue, now: &str) -> (r: JsonValue)
    ensures
        r@ == match data@ {
            JsonModel::Object(members) => JsonModel::Object(stamped(members, now@)),
            other => other,
        },
{
    match data {
        JsonValue::Object(map) => {
            let mut map = map;
            proof {
                lemma_view_object(map);
            }
            add_automatic_timestamps(&mut map, now);
            proof {
                lemma_view_object(map);
            }
            JsonValue::Object(map)
        },
        other => other,
    }
}

/// A document that is updated at the time `now`: an object gets
/// `updated_at`, anything else stays as it is.
pub fn add_updated_timestamp(data: JsonValue, now: &str) -> (r: JsonValue)
    ensures
        r@ == match data@ {
            JsonModel::Object(members) => JsonModel::Object(
                upsert(members, "updated_at"@, JsonModel::String(now@)),
            ),
            other => other,
        },
{
    match data {
        JsonValue::Object(map) => {
            let mut map = map;
            proof {
                lemma_view_object(map);
            }
            set_entry(
                &mut map,
                String::from_str("updated_at"),
                JsonValue::String(String::from_str(now)),
            );
            proof {
                lemma_view_object(map);
            }
            JsonValue::Object(map)
        },
        other => other,
    }
}

/// The value that a text denotes as JSON, or else as YAML.
pub open spec fn json_or_yaml(content: Seq<char>) -> Option<JsonModel> {
    match json_of_text(content) {
        Some(j) => Some(j),
        None => yaml_of_text(content),
    }
}

/// Reads a text as JSON, or else as YAML. A text that is neither is a
/// `ValidationError` that carries what both parsers said.
pub fn parse_json_or_yaml(content: &str) -> (r: Result<JsonValue, FirebaseError>)
    ensures
        match json_or_yaml(content@) {
            Some(v) => r matches Ok(x) && x@ == v,
            None => r matches Err(e) && e@.kind == ErrorKind::Validation && has_prefix(
                e@.detail,
                "Failed to parse as JSON: "@,
            ),
        },
{
    let json_error = match parse_json(content) {
        Ok(j) => {
            return Ok(j);
        },
        Err(e) => e,
    };
    match parse_yaml(content) {
        Ok(y) => Ok(y),
        Err(yaml_error) => {
            let mut message = String::from_str("Failed to parse as JSON: ");
            let ghost head = message@;
            message.append(json_error.detail());
            message.append(". Failed to parse as YAML: ");
            message.append(yaml_error.detail());
            proof {
                assert(message@.take(head.len() as int) =~= head);
            }
            Err(FirebaseError::ValidationError(message))
        },
    }
}

/// How many members a document has: 0 for what is no object.
pub fn count_fields(data: &JsonValue) -> (r: usize)
    ensures
        r == match data@ {
            JsonModel::Object(members) => members.len(),
            _ => 0,
        },
{
    match data {
        JsonValue::Object(map) => {
            proof {
                lemma_view_object(*map);
            }
            map.len()
        },
        _ => 0,
    }
}

/// A text cut to `keep` characters and followed by three dots where it is
/// longer than `limit`; the text itself otherwise.
pub open spec fn shortened(s: Seq<char>, limit: nat, keep: nat) -> Seq<char> {
    if s.len() > limit {
        s.take(keep as int) + "..."@
    } else {
        s
    }
}

fn shorten(s: &str, limit: usize, keep: usize) -> (r: String)
    requires
        keep <= limit,
    ensures
        r@ == shortened(s@, limit as nat, keep as nat),
{
    if char_count(s) > limit {
        concat2(take_chars(s, keep).as_str(), "...")
    } else {
        String::from_str(s)
    }
}

/// A value in a few characters: a string in quotes and cut after 17 of
/// its characters where it has more than 20, an array or an object by its size.
pub open spec fn compact_text(value: JsonModel) -> Seq<char> {
    match value {
        JsonModel::String(s) => "\""@ + shortened(s, 20, 17) + "\""@,
        JsonModel::Number(n) => number_shown(n),
        JsonModel::Bool(b) => bool_shown(b),
        JsonModel::Array(items) => "["@ + decimal(items.len()) + " items]"@,
        JsonModel::Object(members) => "{"@ + decimal(members.len()) + " fields}"@,
        JsonModel::Null => "null"@,
    }
}

fn number_display(n: &JsonNumber) -> (r: String)
    ensures
        r@ == number_shown(n.model()),
{
    match n {
        JsonNumber::Integer(i) => crate::text::format_i64(*i),
        JsonNumber::Unsigned(u) => format_u64(*u),
        JsonNumber::Double(t) => t.clone(),
    }
}

fn bool_display(b: bool) -> (r: String)
    ensures
        r@ == bool_shown(b),
{
    if b {
        String::from_str("true")
    } else {
        String::from_str("false")
    }
}

/// A value in a few characters.
pub fn format_json_value_compact(value: &JsonValue) -> (r: String)
    ensures
        r@ == compact_text(value@),
{
    match value {
        JsonValue::String(s) => concat3("\"", shorten(s.as_str(), 20, 17).as_str(), "\""),
        JsonValue::Number(n) => number_display(n),
        JsonValue::Bool(b) => bool_display(*b),
        JsonValue::Array(items) => {
            proof {
                crate::json::lemma_view_array(*items);
            }
            concat3("[", format_u64(items.len() as u64).as_str(), " items]")
        },
        JsonValue::Object(members) => {
            proof {
                lemma_view_object(*members);
            }
            concat3("{", format_u64(members.len() as u64).as_str(), " fields}")
        },
        JsonValue::Null => String::from_str("null"),
    }
}

/// A value as it stands in one cell of a table of documents: a string cut
/// after 27 of its characters where it has more than 30, an array or an
/// object by its size in brackets or braces, `null` as a dash.
pub open spec fn cell_text(value: JsonModel) -> Seq<char> {
    match value {
        JsonModel::String(s) => shortened(s, 30, 27),
        JsonModel::Number(n) => number_shown(n),
        JsonModel::Bool(b) => bool_shown(b),
        JsonModel::Array(items) => "["@ + decimal(items.len()) + "]"@,
        JsonModel::Object(members) => "{"@ + decimal(members.len()) + "}"@,
        JsonModel::Null => "-"@,
    }
}

/// A value as it stands in one cell of a table of documents.
pub fn format_cell(value: &JsonValue) -> (r: String)
    ensures
        r@ == cell_text(value@),
{
    match value {
        JsonValue::String(s) => shorten(s.as_str(), 30, 27),
        JsonValue::Number(n) => number_display(n),
        JsonValue::Bool(b) => bool_display(*b),
        JsonValue::Array(items) => {
            proof {
                crate::json::lemma_view_array(*items);
            }
            concat3("[", format_u64(items.len() as u64).as_str(), "]")
        },
        JsonValue::Object(members) => {
            proof {
                lemma_view_object(*members);
            }
            concat3("{", format_u64(members.len() as u64).as_str(), "}")
        },
        JsonValue::Null => String::from_str("-"),
    }
}

/// The cell of a document under a heading: the member of that name as a
/// cell, a dash where the document has none.
pub open spec fn cell_under(document: JsonModel, heading: Seq<char>) -> Seq<char> {
    match document.member(heading) {
        Some(v) => cell_text(v),
        None => "-"@,
    }
}

/// The cell of a document under a heading.
pub fn format_cell_under(document: &JsonValue, heading: &str) -> (r: String)
    ensures
        r@ == cell_under(document@, heading@),
{
    match document.get(heading) {
        Some(v) => format_cell(v),
        None => String::from_str("-"),
    }
}

/// A value as a line of a plain listing shows it: a string in quotes, an
/// array or an object by a word for it.
pub open spec fn listing_text(value: JsonModel) -> Seq<char> {
    match value {
        JsonModel::String(s) => "\""@ + s + "\""@,
        JsonModel::Number(n) => number_shown(n),
        JsonModel::Bool(b) => bool_shown(b),
        JsonModel::Array(_) => "[array]"@,
        JsonModel::Object(_) => "{object}"@,
        JsonModel::Null => "null"@,
    }
}

/// A value as a line of a plain listing shows it.
pub fn format_listing_value(value: &JsonValue) -> (r: String)
    ensures
        r@ == listing_text(value@),
{
    match value {
        JsonValue::String(s) => concat3("\"", s.as_str(), "\""),
        JsonValue::Number(n) => number_display(n),
        JsonValue::Bool(b) => bool_display(*b),
        JsonValue::Array(_) => String::from_str("[array]"),
        JsonValue::Object(_) => String::from_str("{object}"),
        JsonValue::Null => String::from_str("null"),
    }
}

/// The lines of a plain listing of the members: `name: value`, one a line.
pub open spec fn listing_lines(members: Seq<(Seq<char>, JsonModel)>) -> Seq<char>
    decreases members.len(),
{
    if members.len() == 0 {
        Seq::empty()
    } else {
        listing_lines(members.drop_last()) + members.last().0 + ": "@ + listing_text(
            members.last().1,
        ) + "\n"@
    }
}

/// The members of a value: none for what is no object.
pub open spec fn members_of(value: JsonModel) -> Seq<(Seq<char>, JsonModel)> {
    match value {
        JsonModel::Object(members) => members,
        _ => Seq::empty(),
    }
}

/// A document as a plain listing between two rules.
pub fn display_document_yaml(doc_id: &str, data: &JsonValue) -> (r: String)
    ensures
        r@ == "\nDocument: "@ + doc_id@ + "\n---\n"@ + listing_lines(members_of(data@))
            + "---\n"@,
{
    let mut out = concat3("\nDocument: ", doc_id, "\n---\n");
    let ghost head = out@;
    match data {
        JsonValue::Object(map) => {
            proof {
                lemma_view_object(*map);
                assert(entries_view(map@).take(0) =~= Seq::empty());
                assert(out@ =~= head + listing_lines(entries_view(map@).take(0)));
            }
            let mut i: usize = 0;
            while i < map.len()
                invariant
                    i <= map.len(),
                    out@ == head + listing_lines(entries_view(map@).take(i as int)),
                decreases map.len() - i,
            {
                let line = format_listing_value(&map[i].1);
                out.append(map[i].0.as_str());
                out.append(": ");
                out.append(line.as_str());
                out.append("\n");
                proof {
                    let next = entries_view(map@).take(i + 1);
                    assert(next.drop_last() =~= entries_view(map@).take(i as int));
                    assert(next.last() == (map@[i as int].0@, map@[i as int].1@));
                    assert(out@ =~= head + listing_lines(next));
                }
                i += 1;
            }
            proof {
                assert(entries_view(map@).take(i as int) =~= entries_view(map@));
            }
        },
        _ => {
            proof {
                assert(out@ =~= head + listing_lines(members_of(data@)));
            }
        },
    }
    out.append("---\n");
    out
}


/// Whether `a` stands before `b` in the order of a dictionary, character
/// by character.
pub open spec fn stands_before(a: Seq<char>, b: Seq<char>) -> bool
    decreases a.len(),
{
    if b.len() == 0 {
        false
    } else if a.len() == 0 {
        true
    } else if a[0] != b[0] {
        (a[0] as u32) < (b[0] as u32)
    } else {
        stands_before(a.skip(1), b.skip(1))
    }
}

/// Whether `a` stands before `b` in the order of a dictionary.
pub fn text_stands_before(a: &str, b: &str) -> (r: bool)
    ensures
        r == stands_before(a@, b@),
{
    let x = to_chars(a);
    let y = to_chars(b);
    let mut i: usize = 0;
    proof {
        assert(x@.skip(0) =~= x@);
        assert(y@.skip(0) =~= y@);
    }
    while i < x.len() && i < y.len() && x[i] == y[i]
        invariant
            i <= x.len(),
            i <= y.len(),
            stands_before(x@, y@) == stands_before(x@.skip(i as int), y@.skip(i as int)),
        decreases x.len() - i,
    {
        proof {
            let p = x@.skip(i as int);
            let q = y@.skip(i as int);
            assert(p[0] == x@[i as int]);
            assert(q[0] == y@[i as int]);
            assert(p.skip(1) =~= x@.skip(i + 1));
            assert(q.skip(1) =~= y@.skip(i + 1));
        }
        i += 1;
    }
    proof {
        let p = x@.skip(i as int);
        let q = y@.skip(i as int);
        if i < x.len() {
            assert(p[0] == x@[i as int]);
        }
        if i < y.len() {
            assert(q[0] == y@[i as int]);
        }
    }
    if i >= y.len() {
        false
    } else if i >= x.len() {
        true
    } else {
        (x[i] as u32) < (y[i] as u32)
    }
}

/// How many of the headings stand before `name`, counted from the start
/// up to the first that does not.
pub open spec fn heading_position(headings: Seq<Seq<char>>, name: Seq<char>) -> int
    decreases headings.len(),
{
    if headings.len() == 0 || !stands_before(headings[0], name) {
        0
    } else {
        1 + heading_position(headings.skip(1), name)
    }
}

/// The headings with `name` among them, at its place in the order, once.
pub open spec fn with_heading(headings: Seq<Seq<char>>, name: Seq<char>) -> Seq<Seq<char>> {
    let p = heading_position(headings, name);
    if p < headings.len() && headings[p] == name {
        headings
    } else {
        headings.insert(p, name)
    }
}

/// The headings with the names of the first `upto` members among them.
pub open spec fn with_member_names(
    headings: Seq<Seq<char>>,
    members: Seq<(Seq<char>, JsonModel)>,
    upto: int,
) -> Seq<Seq<char>>
    decreases upto,
{
    if upto <= 0 {
        headings
    } else {
        with_heading(with_member_names(headings, members, upto - 1), members[upto - 1].0)
    }
}

/// The headings of a table of documents: the names of all the members of
/// all the documents, each once, in the order of a dictionary.
pub open spec fn table_headings_of(documents: Seq<(Seq<char>, JsonModel)>) -> Seq<Seq<char>>
    decreases documents.len(),
{
    if documents.len() == 0 {
        Seq::empty()
    } else {
        let members = members_of(documents.last().1);
        with_member_names(
            table_headings_of(documents.drop_last()),
            members,
            members.len() as int,
        )
    }
}

fn add_heading(headings: &mut Vec<String>, name: &str)
    ensures
        crate::text::texts(final(headings)@) == with_heading(
            crate::text::texts(old(headings)@),
            name@,
        ),
{
    let ghost before = crate::text::texts(headings@);
    let mut p: usize = 0;
    proof {
        assert(before.skip(0) =~= before);
    }
    while p < headings.len() && text_stands_before(headings[p].as_str(), name)
        invariant
            p <= headings.len(),
            before == crate::text::texts(headings@),
            heading_position(before, name@) == p + heading_position(before.skip(p as int), name@),
        decreases headings.len() - p,
    {
        proof {
            let tail = before.skip(p as int);
            assert(tail[0] == headings@[p as int]@);
            assert(tail.skip(1) =~= before.skip(p + 1));
        }
        p += 1;
    }
    proof {
        let tail = before.skip(p as int);
        if p < headings.len() {
            assert(tail[0] == headings@[p as int]@);
        }
    }
    if p < headings.len() && str_eq(headings[p].as_str(), name) {
        return ;
    }
    headings.insert(p, String::from_str(name));
    assert(crate::text::texts(headings@) =~= before.insert(p as int, name@));
}

/// The headings of a table of documents, each given with its id.
pub fn table_headings(documents: &Vec<(String, JsonValue)>) -> (r: Vec<String>)
    ensures
        crate::text::texts(r@) == table_headings_of(entries_view(documents@)),
{
    let ghost docs = entries_view(documents@);
    let mut headings: Vec<String> = Vec::new();
    let mut i: usize = 0;
    proof {
        assert(docs.take(0) =~= Seq::empty());
        assert(crate::text::texts(headings@) =~= Seq::empty());
    }
    while i < documents.len()
        invariant
            i <= documents.len(),
            docs == entries_view(documents@),
            crate::text::texts(headings@) == table_headings_of(docs.take(i as int)),
        decreases documents.len() - i,
    {
        let ghost done = table_headings_of(docs.take(i as int));
        proof {
            let next = docs.take(i + 1);
            assert(next.drop_last() =~= docs.take(i as int));
            assert(next.last() == (documents@[i as int].0@, documents@[i as int].1@));
        }
        match &documents[i].1 {
            JsonValue::Object(map) => {
                proof {
                    lemma_view_object(*map);
                }
                let mut k: usize = 0;
                while k < map.len()
                    invariant
                        k <= map.len(),
                        crate::text::texts(headings@) == with_member_names(
                            done,
                            entries_view(map@),
                            k as int,
                        ),
                    decreases map.len() - k,
                {
                    add_heading(&mut headings, map[k].0.as_str());
                    proof {
                        assert(entries_view(map@)[k as int].0 == map@[k as int].0@);
                    }
                    k += 1;
                }
            },
            _ => {},
        }
        i += 1;
    }
    proof {
        assert(docs.take(i as int) =~= docs);
    }
    headings
}

} // verus!
