//! The value that travels to and from the store, and the two interfaces by
//! which a typed record says how it is written as, and read from, such values.

use vstd::prelude::*;
use crate::error::{database_error, FirebaseError};
use crate::text::{
    concat3, decimal, format_u64, lemma_parse_format_u32, parse_u32, parse_u32_spec,
};
use crate::time::{in_four_digit_years, instant_of_rfc3339, Timestamp};
use crate::json::{
    find_key, index_of_key, keys_unique, lemma_index_of_key, lemma_index_of_key_is,
    lemma_index_of_key_none, lookup, upsert,
};

verus! {

/// A value in the store's own terms: exactly one of the store's value kinds.
#[derive(Debug)]
pub enum FirestoreValue {
    StringValue(String),
    /// An integer as decimal text, so that no digit is lost on the way.
    IntegerValue(String),
    /// A double as its JSON number text.
    DoubleValue(String),
    BooleanValue(bool),
    /// A point in time as RFC 3339 text.
    TimestampValue(String),
    MapValue { fields: Vec<(String, FirestoreValue)> },
    ArrayValue { values: Vec<FirestoreValue> },
    NullValue,
    /// A kind of value that this library does not know.
    Unknown,
}

/// The fields of a document or of a map value, in insertion order.
pub type FirestoreFields = Vec<(String, FirestoreValue)>;

pub ghost enum FirestoreModel {
    StringValue(Seq<char>),
    IntegerValue(Seq<char>),
    DoubleValue(Seq<char>),
    BooleanValue(bool),
    TimestampValue(Seq<char>),
    MapValue(Seq<(Seq<char>, FirestoreModel)>),
    ArrayValue(Seq<FirestoreModel>),
    NullValue,
    Unknown,
}

pub type FieldsModel = Seq<(Seq<char>, FirestoreModel)>;

impl FirestoreValue {
    /// The value as contracts see it.
    pub open spec fn model(&self) -> FirestoreModel
        decreases self,
    {
        match self {
            FirestoreValue::StringValue(s) => FirestoreModel::StringValue(s@),
            FirestoreValue::IntegerValue(s) => FirestoreModel::IntegerValue(s@),
            FirestoreValue::DoubleValue(s) => FirestoreModel::DoubleValue(s@),
            FirestoreValue::BooleanValue(b) => FirestoreModel::BooleanValue(*b),
            FirestoreValue::TimestampValue(s) => FirestoreModel::TimestampValue(s@),
            FirestoreValue::MapValue { fields } => FirestoreModel::MapValue(
                Seq::new(
                    fields@.len(),
                    |i: int|
                        if 0 <= i < fields@.len() {
                            (fields@[i].0@, fields@[i].1.model())
                        } else {
                            (Seq::empty(), FirestoreModel::NullValue)
                        },
                ),
            ),
            FirestoreValue::ArrayValue { values } => FirestoreModel::ArrayValue(
                Seq::new(
                    values@.len(),
                    |i: int|
                        if 0 <= i < values@.len() {
                            values@[i].model()
                        } else {
                            FirestoreModel::NullValue
                        },
                ),
            ),
            FirestoreValue::NullValue => FirestoreModel::NullValue,
            FirestoreValue::Unknown => FirestoreModel::Unknown,
        }
    }
}

impl View for FirestoreValue {
    type V = FirestoreModel;

    open spec fn view(&self) -> FirestoreModel {
        self.model()
    }
}

/// The model of a list of fields.
pub open spec fn fields_view(fields: Seq<(String, FirestoreValue)>) -> FieldsModel {
    Seq::new(fields.len(), |i: int| (fields[i].0@, fields[i].1@))
}

/// The model of a list of values.
pub open spec fn wire_values_view(values: Seq<FirestoreValue>) -> Seq<FirestoreModel> {
    Seq::new(values.len(), |i: int| values[i]@)
}

pub proof fn lemma_view_map(fields: Vec<(String, FirestoreValue)>)
    ensures
        (FirestoreValue::MapValue { fields })@ == FirestoreModel::MapValue(fields_view(fields@)),
{
    assert((FirestoreValue::MapValue { fields })@->MapValue_0 =~= fields_view(fields@));
}

pub proof fn lemma_view_values(values: Vec<FirestoreValue>)
    ensures
        (FirestoreValue::ArrayValue { values })@ == FirestoreModel::ArrayValue(
            wire_values_view(values@),
        ),
{
    assert((FirestoreValue::ArrayValue { values })@->ArrayValue_0 =~= wire_values_view(values@));
}

impl FirestoreModel {
    /// Well-formed: no map holds a field name twice.
    pub open spec fn wf(self) -> bool
        decreases self,
    {
        match self {
            FirestoreModel::ArrayValue(values) => forall|i: int|
                0 <= i < values.len() ==> (#[trigger] values[i]).wf(),
            FirestoreModel::MapValue(fields) => keys_unique(fields) && forall|i: int|
                0 <= i < fields.len() ==> (#[trigger] fields[i]).1.wf(),
            _ => true,
        }
    }
}

/// No field name twice, here and in every map below.
pub open spec fn fields_wf(fields: FieldsModel) -> bool {
    keys_unique(fields) && forall|i: int| 0 <= i < fields.len() ==> (#[trigger] fields[i]).1.wf()
}

impl FirestoreValue {
    /// A deep copy.
    pub fn clone_value(&self) -> (r: FirestoreValue)
        ensures
            r@ == self@,
        decreases self,
    {
        match self {
            FirestoreValue::StringValue(s) => FirestoreValue::StringValue(s.clone()),
            FirestoreValue::IntegerValue(s) => FirestoreValue::IntegerValue(s.clone()),
            FirestoreValue::DoubleValue(s) => FirestoreValue::DoubleValue(s.clone()),
            FirestoreValue::BooleanValue(b) => FirestoreValue::BooleanValue(*b),
            FirestoreValue::TimestampValue(s) => FirestoreValue::TimestampValue(s.clone()),
            FirestoreValue::NullValue => FirestoreValue::NullValue,
            FirestoreValue::Unknown => FirestoreValue::Unknown,
            FirestoreValue::ArrayValue { values } => {
                let mut out: Vec<FirestoreValue> = Vec::new();
                let mut i: usize = 0;
                while i < values.len()
                    invariant
                        i <= values.len(),
                        out@.len() == i,
                        *self == (FirestoreValue::ArrayValue { values: *values }),
                        forall|j: int| 0 <= j < i ==> (#[trigger] out@[j])@ == values@[j]@,
                    decreases values.len() - i,
                {
                    assert(decreases_to!(*self => self->values[i as int]));
                    out.push(values[i].clone_value());
                    i += 1;
                }
                proof {
                    lemma_view_values(out);
                    lemma_view_values(*values);
                    assert(wire_values_view(out@) =~= wire_values_view(values@));
                }
                FirestoreValue::ArrayValue { values: out }
            },
            FirestoreValue::MapValue { fields } => {
                let mut out: Vec<(String, FirestoreValue)> = Vec::new();
                let mut i: usize = 0;
                while i < fields.len()
                    invariant
                        i <= fields.len(),
                        out@.len() == i,
                        *self == (FirestoreValue::MapValue { fields: *fields }),
                        forall|j: int|
                            0 <= j < i ==> (#[trigger] out@[j]).0@ == fields@[j].0@ && out@[j].1@
                                == fields@[j].1@,
                    decreases fields.len() - i,
                {
                    assert(decreases_to!(*self => self->fields[i as int].1));
                    out.push((fields[i].0.clone(), fields[i].1.clone_value()));
                    i += 1;
                }
                proof {
                    lemma_view_map(out);
                    lemma_view_map(*fields);
                    assert(fields_view(out@) =~= fields_view(fields@));
                }
                FirestoreValue::MapValue { fields: out }
            },
        }
    }
}

/// A deep copy of a list of fields.
pub fn clone_fields(fields: &FirestoreFields) -> (r: FirestoreFields)
    ensures
        fields_view(r@) == fields_view(fields@),
{
    let mut out: Vec<(String, FirestoreValue)> = Vec::new();
    let mut i: usize = 0;
    while i < fields.len()
        invariant
            i <= fields.len(),
            out@.len() == i,
            forall|j: int|
                0 <= j < i ==> (#[trigger] out@[j]).0@ == fields@[j].0@ && out@[j].1@
                    == fields@[j].1@,
        decreases fields.len() - i,
    {
        out.push((fields[i].0.clone(), fields[i].1.clone_value()));
        i += 1;
    }
    assert(fields_view(out@) =~= fields_view(fields@));
    out
}

/// The value of the field `name`.
pub fn get_field<'a>(fields: &'a FirestoreFields, name: &str) -> (r: Option<&'a FirestoreValue>)
    ensures
        r is Some <==> lookup(fields_view(fields@), name@) is Some,
        r matches Some(v) ==> lookup(fields_view(fields@), name@) == Some(v@),
{
    let ghost model = fields_view(fields@);
    match find_key(fields, name) {
        Some(i) => {
            proof {
                assert(model[i as int].0 == name@);
                assert forall|j: int| 0 <= j < i implies (#[trigger] model[j]).0 != name@ by {
                    assert(fields@[j].0@ != name@);
                }
                lemma_index_of_key_is(model, name@, i as int);
            }
            Some(&fields[i].1)
        },
        None => {
            proof {
                assert forall|j: int| 0 <= j < model.len() implies (#[trigger] model[j]).0
                    != name@ by {
                    assert(fields@[j].0@ != name@);
                }
                lemma_index_of_key_none(model, name@);
            }
            None
        },
    }
}

/// Whether a field `name` is present.
pub fn has_field(fields: &FirestoreFields, name: &str) -> (r: bool)
    ensures
        r == lookup(fields_view(fields@), name@) is Some,
{
    get_field(fields, name).is_some()
}

/// Sets the field `name` to `value`: in place where it is present, else at the end.
pub fn set_field(fields: &mut FirestoreFields, name: String, value: FirestoreValue)
    ensures
        fields_view(final(fields)@) == upsert(fields_view(old(fields)@), name@, value@),
{
    let ghost before = fields_view(fields@);
    proof {
        lemma_index_of_key(before, name@);
    }
    match find_key(fields, name.as_str()) {
        Some(i) => {
            proof {
                assert forall|j: int| 0 <= j < i implies (#[trigger] before[j]).0 != name@ by {
                    assert(fields@[j].0@ != name@);
                }
                assert(before[i as int].0 == name@);
                lemma_index_of_key_is(before, name@, i as int);
            }
            fields.set(i, (name, value));
            assert(fields_view(fields@) =~= upsert(before, name@, value@));
        },
        None => {
            proof {
                assert forall|j: int| 0 <= j < before.len() implies (#[trigger] before[j]).0
                    != name@ by {
                    assert(fields@[j].0@ != name@);
                }
                lemma_index_of_key_none(before, name@);
            }
            fields.push((name, value));
            assert(fields_view(fields@) =~= upsert(before, name@, value@));
        },
    }
}

/// The names of the fields, in order.
pub fn field_names(fields: &FirestoreFields) -> (r: Vec<String>)
    ensures
        r@.len() == fields@.len(),
        forall|i: int| 0 <= i < r@.len() ==> (#[trigger] r@[i])@ == fields@[i].0@,
{
    let mut out: Vec<String> = Vec::new();
    let mut i: usize = 0;
    while i < fields.len()
        invariant
            i <= fields.len(),
            out@.len() == i,
            forall|j: int| 0 <= j < i ==> (#[trigger] out@[j])@ == fields@[j].0@,
        decreases fields.len() - i,
    {
        out.push(fields[i].0.clone());
        i += 1;
    }
    out
}


/// Why a record could not be read from the fields of a document.
#[derive(Debug)]
pub enum DecodeError {
    /// A field that the record cannot do without is absent, or holds a value
    /// of another kind.
    MissingField(String),
}

impl DecodeError {
    /// The name of the field that the error is about.
    pub open spec fn field(&self) -> Seq<char> {
        match self {
            DecodeError::MissingField(name) => name@,
        }
    }

    /// The name of the field that the error is about.
    pub fn field_name(&self) -> (r: &str)
        ensures
            r@ == self.field(),
    {
        match self {
            DecodeError::MissingField(name) => name.as_str(),
        }
    }

    /// The error as the operations of the client report it.
    pub fn into_error(self) -> (r: FirebaseError)
        ensures
            r@ == database_error("Missing "@ + self.field() + " field"@),
    {
        match self {
            DecodeError::MissingField(name) => FirebaseError::DatabaseError(
                concat3("Missing ", name.as_str(), " field"),
            ),
        }
    }
}

/// How a typed record is written as fields. A record decides which fields it
/// writes; it writes no field twice.
pub trait ToFirestore {
    /// The fields that the record is written as.
    spec fn fields_model(&self) -> FieldsModel;

    fn to_firestore(&self) -> (r: FirestoreFields)
        ensures
            fields_view(r@) == self.fields_model(),
            keys_unique(fields_view(r@)),
    ;
}

/// How a typed record is read from fields. Reading fails only for want of a
/// field that the record cannot do without; it may fill other fields with what
/// the fields do not say (the present time, for one).
pub trait FromFirestore: Sized {
    /// Whether the fields hold all that the record cannot do without.
    spec fn accepts(fields: FieldsModel) -> bool;

    /// Whether `value` is a reading of the fields.
    spec fn decodes_to(fields: FieldsModel, value: &Self) -> bool;

    /// The field for want of which the fields are not accepted.
    spec fn missing_field(fields: FieldsModel) -> Seq<char>;

    fn from_firestore(fields: &FirestoreFields) -> (r: Result<Self, DecodeError>)
        ensures
            r is Ok <==> Self::accepts(fields_view(fields@)),
            r matches Ok(v) ==> Self::decodes_to(fields_view(fields@), &v),
            r matches Err(e) ==> e.field() == Self::missing_field(fields_view(fields@)),
    ;
}

#[derive(Debug)]
pub struct User {
    pub id: Option<String>,
    pub name: String,
    pub email: String,
    pub age: u32,
    pub created_at: Timestamp,
    pub updated_at: Timestamp,
}

/// The text of the field `name` where it holds a string value.
pub open spec fn string_field(fields: FieldsModel, name: Seq<char>) -> Option<Seq<char>> {
    match lookup(fields, name) {
        Some(FirestoreModel::StringValue(s)) => Some(s),
        _ => None,
    }
}

/// The number in the field `name` where it holds an integer value that is a
/// `u32`; 0 otherwise.
pub open spec fn u32_field_or_zero(fields: FieldsModel, name: Seq<char>) -> u32 {
    match lookup(fields, name) {
        Some(FirestoreModel::IntegerValue(s)) => match parse_u32_spec(s) {
            Some(n) => n,
            None => 0,
        },
        _ => 0,
    }
}

/// The instant in the field `name` where it holds a timestamp value whose
/// text is RFC 3339.
pub open spec fn instant_field(fields: FieldsModel, name: Seq<char>) -> Option<(i64, u32)> {
    match lookup(fields, name) {
        Some(FirestoreModel::TimestampValue(s)) => instant_of_rfc3339(s),
        _ => None,
    }
}

/// `time` is what the field `name` says, or `fallback` where it says nothing.
pub open spec fn instant_or(
    fields: FieldsModel,
    name: Seq<char>,
    fallback: Timestamp,
    time: Timestamp,
) -> bool {
    match instant_field(fields, name) {
        Some(t) => time.seconds() == t.0 && time.nanos() == t.1,
        None => time == fallback,
    }
}

impl User {
    /// A user without an id, created and updated now.
    pub fn new(name: String, email: String, age: u32) -> (r: Self)
        ensures
            r.id is None,
            r.name == name,
            r.email == email,
            r.age == age,
            r.created_at == r.updated_at,
    {
        let now = Timestamp::now();
        Self { id: None, name, email, age, created_at: now, updated_at: now }
    }

    /// The fields that every user is written as, after the id where there is one.
    pub open spec fn base_fields(&self) -> FieldsModel {
        seq![
            ("name"@, FirestoreModel::StringValue(self.name@)),
            ("email"@, FirestoreModel::StringValue(self.email@)),
            ("age"@, FirestoreModel::IntegerValue(decimal(self.age as nat))),
            ("created_at"@, FirestoreModel::TimestampValue(self.created_at.text())),
            ("updated_at"@, FirestoreModel::TimestampValue(self.updated_at.text())),
        ]
    }

    /// `value` is the reading of `fields` made at the instant `now`.
    pub open spec fn read_at(fields: FieldsModel, now: Timestamp, value: &User) -> bool {
        &&& string_field(fields, "id"@) == match value.id {
            Some(id) => Some(id@),
            None => None,
        }
        &&& string_field(fields, "name"@) == Some(value.name@)
        &&& string_field(fields, "email"@) == Some(value.email@)
        &&& value.age == u32_field_or_zero(fields, "age"@)
        &&& instant_or(fields, "created_at"@, now, value.created_at)
        &&& instant_or(fields, "updated_at"@, now, value.updated_at)
    }

    /// Reads a user from `fields`, taking `now` for a time that the fields do
    /// not say. Fails where `name` or `email` is no string field, naming the
    /// first of the two that is wanting.
    pub fn from_firestore_at(fields: &FirestoreFields, now: Timestamp) -> (r: Result<
        User,
        DecodeError,
    >)
        ensures
            match r {
                Ok(user) => User::read_at(fields_view(fields@), now, &user),
                Err(e) => if string_field(fields_view(fields@), "name"@) is None {
                    e.field() == "name"@
                } else {
                    string_field(fields_view(fields@), "email"@) is None && e.field() == "email"@
                },
            },
    {
        let id = match get_field(fields, "id") {
            Some(FirestoreValue::StringValue(v)) => Some(v.clone()),
            _ => None,
        };
        let name = match get_field(fields, "name") {
            Some(FirestoreValue::StringValue(v)) => v.clone(),
            _ => {
                return Err(DecodeError::MissingField(String::from_str("name")));
            },
        };
        let email = match get_field(fields, "email") {
            Some(FirestoreValue::StringValue(v)) => v.clone(),
            _ => {
                return Err(DecodeError::MissingField(String::from_str("email")));
            },
        };
        let age: u32 = match get_field(fields, "age") {
            Some(FirestoreValue::IntegerValue(v)) => match parse_u32(v.as_str()) {
                Some(n) => n,
                None => 0,
            },
            _ => 0,
        };
        let created_at = match get_field(fields, "created_at") {
            Some(FirestoreValue::TimestampValue(v)) => match Timestamp::parse(v.as_str()) {
                Some(t) => t,
                None => now,
            },
            _ => now,
        };
        let updated_at = match get_field(fields, "updated_at") {
            Some(FirestoreValue::TimestampValue(v)) => match Timestamp::parse(v.as_str()) {
                Some(t) => t,
                None => now,
            },
            _ => now,
        };
        Ok(User { id, name, email, age, created_at, updated_at })
    }
}

proof fn lemma_user_field_names()
    ensures
        "id"@ != "name"@,
        "id"@ != "email"@,
        "id"@ != "age"@,
        "id"@ != "created_at"@,
        "id"@ != "updated_at"@,
        "name"@ != "email"@,
        "name"@ != "age"@,
        "name"@ != "created_at"@,
        "name"@ != "updated_at"@,
        "email"@ != "age"@,
        "email"@ != "created_at"@,
        "email"@ != "updated_at"@,
        "age"@ != "created_at"@,
        "age"@ != "updated_at"@,
        "created_at"@ != "updated_at"@,
{
    reveal_strlit("id");
    reveal_strlit("name");
    reveal_strlit("email");
    reveal_strlit("age");
    reveal_strlit("created_at");
    reveal_strlit("updated_at");
    assert("id"@[0] == 'i');
    assert("name"@[0] == 'n');
    assert("email"@[0] == 'e');
    assert("age"@[0] == 'a');
    assert("created_at"@[0] == 'c');
    assert("updated_at"@[0] == 'u');
}

impl ToFirestore for User {
    open spec fn fields_model(&self) -> FieldsModel {
        match self.id {
            Some(id) => seq![("id"@, FirestoreModel::StringValue(id@))] + self.base_fields(),
            None => self.base_fields(),
        }
    }

    fn to_firestore(&self) -> (r: FirestoreFields) {
        let mut fields: Vec<(String, FirestoreValue)> = Vec::new();
        match &self.id {
            Some(id) => {
                fields.push((String::from_str("id"), FirestoreValue::StringValue(id.clone())));
            },
            None => {},
        }
        fields.push((String::from_str("name"), FirestoreValue::StringValue(self.name.clone())));
        fields.push((String::from_str("email"), FirestoreValue::StringValue(self.email.clone())));
        fields.push(
            (String::from_str("age"), FirestoreValue::IntegerValue(format_u64(self.age as u64))),
        );
        fields.push(
            (
                String::from_str("created_at"),
                FirestoreValue::TimestampValue(self.created_at.to_rfc3339()),
            ),
        );
        fields.push(
            (
                String::from_str("updated_at"),
                FirestoreValue::TimestampValue(self.updated_at.to_rfc3339()),
            ),
        );
        proof {
            lemma_user_field_names();
            assert(fields_view(fields@) =~= self.fields_model());
        }
        fields
    }
}

impl FromFirestore for User {
    open spec fn accepts(fields: FieldsModel) -> bool {
        string_field(fields, "name"@) is Some && string_field(fields, "email"@) is Some
    }

    open spec fn decodes_to(fields: FieldsModel, value: &Self) -> bool {
        exists|now: Timestamp| User::read_at(fields, now, value)
    }

    open spec fn missing_field(fields: FieldsModel) -> Seq<char> {
        if string_field(fields, "name"@) is None {
            "name"@
        } else {
            "email"@
        }
    }

    fn from_firestore(fields: &FirestoreFields) -> (r: Result<Self, DecodeError>) {
        let now = Timestamp::now();
        let r = User::from_firestore_at(fields, now);
        proof {
            if r is Ok {
                assert(User::read_at(fields_view(fields@), now, &r->Ok_0));
            }
        }
        r
    }
}

/// A user read from the fields that a user was written as has the same id,
/// name, email and age, and the same two times where they lie in the years 0
/// to 9999. (Beyond those years the text of a time is not read back, and the
/// time of the reading stands in its place.)
pub proof fn lemma_user_round_trip(written: User, read: User)
    requires
        written.created_at.wf(),
        written.updated_at.wf(),
        User::decodes_to(written.fields_model(), &read),
    ensures
        User::accepts(written.fields_model()),
        read.name@ == written.name@,
        read.email@ == written.email@,
        read.age == written.age,
        match (written.id, read.id) {
            (Some(a), Some(b)) => a@ == b@,
            (None, None) => true,
            _ => false,
        },
        in_four_digit_years(written.created_at.seconds()) ==> read.created_at.seconds()
            == written.created_at.seconds() && read.created_at.nanos()
            == written.created_at.nanos(),
        in_four_digit_years(written.updated_at.seconds()) ==> read.updated_at.seconds()
            == written.updated_at.seconds() && read.updated_at.nanos()
            == written.updated_at.nanos(),
{
    lemma_user_field_names();
    lemma_parse_format_u32(written.age);
    let m = written.fields_model();
    let shift: int = if written.id is Some {
        1
    } else {
        0
    };
    assert(m[shift].0 == "name"@);
    assert(m[shift + 1].0 == "email"@);
    assert(m[shift + 2].0 == "age"@);
    assert(m[shift + 3].0 == "created_at"@);
    assert(m[shift + 4].0 == "updated_at"@);
    lemma_index_of_key_is(m, "name"@, shift);
    lemma_index_of_key_is(m, "email"@, shift + 1);
    lemma_index_of_key_is(m, "age"@, shift + 2);
    lemma_index_of_key_is(m, "created_at"@, shift + 3);
    lemma_index_of_key_is(m, "updated_at"@, shift + 4);
    if written.id is Some {
        lemma_index_of_key_is(m, "id"@, 0);
    } else {
        lemma_index_of_key_none(m, "id"@);
    }
}

} // verus!
