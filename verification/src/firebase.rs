//! The client's side of every exchange with the store: what each request
//! holds, and what each response means.
//!
//! The client sends nothing itself. For each operation it builds the request
//! that a transport is to send, and reads the response that the transport got.
//! It does not retry, and it keeps no state between calls.

use vstd::prelude::*;
use crate::convert::{
    firestore_fields_to_json, json_of_fields, json_to_firestore_fields, wire_of_entries,
};
use crate::error::{database_error, not_found, validation_error, ErrorKind, FirebaseError};
use crate::json::{
    entries_view, json_of_text, lemma_view_array, lemma_view_object, lookup, parse_json,
    values_view, JsonModel, JsonValue,
};
use crate::models::{
    clone_fields, field_names, fields_view, set_field, DecodeError, FieldsModel, FirestoreFields,
    FirestoreModel, FirestoreValue, FromFirestore, ToFirestore,
};
use crate::query::{query_json, QueryBuilder, StructuredQuery};
use crate::text::{
    concat2, concat3, decimal, format_u64, is_blank, join, joined, last_segment,
    last_segment_of, split, split_on, str_is_blank, strip_leading, texts, without_leading,
};
use crate::time::Timestamp;
use crate::wire::{
    decode_document, document_of_json, fields_body, fields_body_model, member_items, tagged,
    Document, DocumentModel,
};

verus! {

#[derive(Clone, Copy, Debug, PartialEq, Eq, Structural)]
pub enum HttpMethod {
    Get,
    Post,
    Patch,
    Delete,
}

/// A request for the transport to send.
#[derive(Debug)]
pub struct HttpRequest {
    pub method: HttpMethod,
    pub url: String,
    /// The JSON body, for the methods that carry one.
    pub body: Option<JsonValue>,
}

/// What the transport got back: the status code and the body as text.
#[derive(Debug)]
pub struct HttpResponse {
    pub status: u16,
    pub body: String,
}

pub ghost struct RequestModel {
    pub method: HttpMethod,
    pub url: Seq<char>,
    pub body: Option<JsonModel>,
}

impl View for HttpRequest {
    type V = RequestModel;

    open spec fn view(&self) -> RequestModel {
        RequestModel {
            method: self.method,
            url: self.url@,
            body: match self.body {
                Some(b) => Some(b@),
                None => None,
            },
        }
    }
}

#[derive(Debug)]
pub struct FirebaseClient {
    pub project_id: String,
    pub api_key: String,
    pub base_url: String,
}

/// A status code of the 2xx class.
pub open spec fn is_success(status: u16) -> bool {
    200 <= status < 300
}

/// The root of the documents of the project `project_id`.
pub open spec fn base_url_of(project_id: Seq<char>) -> Seq<char> {
    "https://firestore.googleapis.com/v1/projects/"@ + project_id
        + "/databases/(default)/documents"@
}

/// The address of a collection: a slash at the start of its name does not count.
pub open spec fn collection_url(base: Seq<char>, collection: Seq<char>) -> Seq<char> {
    base + "/"@ + without_leading(collection, '/')
}

/// The address of a document of a collection.
pub open spec fn document_url(base: Seq<char>, collection: Seq<char>, doc_id: Seq<char>) -> Seq<
    char,
> {
    collection_url(base, collection) + "/"@ + doc_id
}

/// The address with the API key as its first query parameter.
pub open spec fn keyed(url: Seq<char>, api_key: Seq<char>) -> Seq<char> {
    url + "?key="@ + api_key
}

/// The query parameters that name the fields to merge: one `updateMask.fieldPaths`
/// for each name (and one with no name where there is no name at all).
pub open spec fn update_mask(names: Seq<Seq<char>>) -> Seq<char> {
    "&updateMask.fieldPaths="@ + joined(names, "&updateMask.fieldPaths="@)
}

/// The names of the fields, in order.
pub open spec fn names_of(fields: FieldsModel) -> Seq<Seq<char>> {
    Seq::new(fields.len(), |i: int| fields[i].0)
}

/// The failure that a response other than success stands for: a store error
/// that says what was tried and carries the body of the response as it came.
pub open spec fn store_failure(what: Seq<char>, body: Seq<char>) -> crate::error::ErrorModel {
    database_error(what + body)
}

/// The id of a document: what follows the last slash of its resource path.
pub open spec fn document_id(name: Seq<char>) -> Seq<char> {
    last_segment(name, '/')
}

/// The text that says which document of which collection is missing.
pub open spec fn missing_document(doc_id: Seq<char>, collection: Seq<char>) -> Seq<char> {
    "Document '"@ + doc_id + "' not found in collection '"@ + collection + "'"@
}

/// The document in the body of a response, where the body is the JSON of one.
pub open spec fn body_document(body: Seq<char>) -> Option<DocumentModel> {
    match json_of_text(body) {
        Some(j) => document_of_json(j),
        None => None,
    }
}

/// The document on one line of a query's response: none on a blank line, on
/// a line that is no JSON, and on a line whose JSON holds no document.
pub open spec fn line_document(line: Seq<char>) -> Option<DocumentModel> {
    if is_blank(line) {
        None
    } else {
        match json_of_text(line) {
            Some(j) => match j.member("document"@) {
                Some(d) => document_of_json(d),
                None => None,
            },
            None => None,
        }
    }
}

/// The documents on the lines of a query's response, line by line.
pub open spec fn line_documents(body: Seq<char>) -> Seq<Option<DocumentModel>> {
    let lines = split(body, '\n');
    Seq::new(lines.len(), |i: int| line_document(lines[i]))
}

/// The documents of a list response, entry by entry: none for an entry that
/// is no document.
pub open spec fn listed_documents(j: JsonModel) -> Seq<Option<DocumentModel>> {
    let items = member_items(j, "documents"@);
    Seq::new(items.len(), |i: int| document_of_json(items[i]))
}

/// What became of one candidate of a page, or of one line of a query's response.
#[derive(Debug)]
pub enum Reading<T> {
    /// The candidate is a document, and this is the record in it.
    Record(T),
    /// The candidate is a document whose fields the record type does not
    /// accept, and this is why.
    Rejected(DecodeError),
    /// The candidate holds no document: an entry of another shape, a blank
    /// line, a line that only reports progress.
    NoDocument,
}

/// `reading` is what becomes of `candidate` when it is read as a `T`.
pub open spec fn is_reading<T: FromFirestore>(
    candidate: Option<DocumentModel>,
    reading: Reading<T>,
) -> bool {
    match candidate {
        None => reading is NoDocument,
        Some(doc) => if T::accepts(doc.fields) {
            reading matches Reading::Record(v) && T::decodes_to(doc.fields, &v)
        } else {
            reading matches Reading::Rejected(e) && e.field() == T::missing_field(doc.fields)
        },
    }
}

/// `out` holds what becomes of each candidate, one for one and in order.
pub open spec fn each_read<T: FromFirestore>(
    candidates: Seq<Option<DocumentModel>>,
    out: Seq<Reading<T>>,
) -> bool {
    out.len() == candidates.len() && forall|i: int|
        0 <= i < out.len() ==> is_reading(candidates[i], #[trigger] out[i])
}

/// The records among the readings, in order.
pub open spec fn records_of<T>(each: Seq<Reading<T>>) -> Seq<T>
    decreases each.len(),
{
    if each.len() == 0 {
        Seq::empty()
    } else {
        match each.last() {
            Reading::Record(v) => records_of(each.drop_last()).push(v),
            _ => records_of(each.drop_last()),
        }
    }
}

/// `out` holds one reading for each candidate that is a document whose
/// fields the record type accepts, in the order of the candidates; the
/// other candidates are passed over.
pub open spec fn readings<T: FromFirestore>(
    candidates: Seq<Option<DocumentModel>>,
    out: Seq<T>,
) -> bool
    decreases candidates.len(),
{
    if candidates.len() == 0 {
        out.len() == 0
    } else {
        match candidates.last() {
            Some(doc) => if T::accepts(doc.fields) {
                out.len() > 0 && T::decodes_to(doc.fields, &out.last()) && readings(
                    candidates.drop_last(),
                    out.drop_last(),
                )
            } else {
                readings(candidates.drop_last(), out)
            },
            None => readings(candidates.drop_last(), out),
        }
    }
}

/// `out` holds, for each candidate that is a document and stands before
/// `limit`, the id of the document and its fields as a dynamic object.
pub open spec fn listing(
    candidates: Seq<Option<DocumentModel>>,
    limit: Option<usize>,
    out: Seq<(Seq<char>, JsonModel)>,
) -> bool
    decreases candidates.len(),
{
    if candidates.len() == 0 {
        out.len() == 0
    } else {
        let within = match limit {
            Some(n) => candidates.len() - 1 < n,
            None => true,
        };
        match candidates.last() {
            Some(doc) => if within {
                out.len() > 0 && out.last() == (
                    document_id(doc.name),
                    JsonModel::Object(json_of_fields(doc.fields)),
                ) && listing(candidates.drop_last(), limit, out.drop_last())
            } else {
                listing(candidates.drop_last(), limit, out)
            },
            None => listing(candidates.drop_last(), limit, out),
        }
    }
}

fn status_is_success(status: u16) -> (r: bool)
    ensures
        r == is_success(status),
{
    200 <= status && status < 300
}

fn failure(what: &str, body: &str) -> (r: FirebaseError)
    ensures
        r@ == store_failure(what@, body@),
{
    FirebaseError::DatabaseError(concat2(what, body))
}

fn missing(doc_id: &str, collection: &str) -> (r: FirebaseError)
    ensures
        r@ == not_found(missing_document(doc_id@, collection@)),
{
    let mut s = concat3("Document '", doc_id, "' not found in collection '");
    s.append(collection);
    s.append("'");
    FirebaseError::NotFound(s)
}

/// Reads the body of a response as one document.
fn read_document(body: &str) -> (r: Result<Document, FirebaseError>)
    ensures
        r is Ok <==> body_document(body@) is Some,
        r matches Ok(d) ==> body_document(body@) == Some(d@),
        r matches Err(e) ==> e@.kind == ErrorKind::Serde,
{
    match parse_json(body) {
        Ok(j) => match decode_document(&j) {
            Some(d) => Ok(d),
            None => Err(FirebaseError::SerdeError(String::from_str("response is not a document"))),
        },
        Err(e) => Err(e),
    }
}

/// Reads each candidate, and says of each what became of it.
fn read_each<T: FromFirestore>(docs: Vec<Option<Document>>) -> (r: Vec<Reading<T>>)
    ensures
        r@.len() == docs@.len(),
        forall|i: int|
            0 <= i < r@.len() ==> is_reading(
                match docs@[i] {
                    Some(d) => Some(d@),
                    None => None,
                },
                #[trigger] r@[i],
            ),
{
    let mut out: Vec<Reading<T>> = Vec::new();
    let mut i: usize = 0;
    while i < docs.len()
        invariant
            i <= docs.len(),
            out@.len() == i,
            forall|k: int|
                0 <= k < i ==> is_reading(
                    match docs@[k] {
                        Some(d) => Some(d@),
                        None => None,
                    },
                    #[trigger] out@[k],
                ),
        decreases docs.len() - i,
    {
        let reading = match &docs[i] {
            Some(d) => match T::from_firestore(&d.fields) {
                Ok(v) => Reading::Record(v),
                Err(e) => Reading::Rejected(e),
            },
            None => Reading::NoDocument,
        };
        out.push(reading);
        i += 1;
    }
    out
}

/// Reads the candidates into records, passing over what the record type does not accept.
fn read_all<T: FromFirestore>(docs: Vec<Option<Document>>) -> (r: Vec<T>)
    ensures
        readings::<T>(
            Seq::new(
                docs@.len(),
                |i: int|
                    match docs@[i] {
                        Some(d) => Some(d@),
                        None => None,
                    },
            ),
            r@,
        ),
{
    let ghost candidates = Seq::new(
        docs@.len(),
        |i: int|
            match docs@[i] {
                Some(d) => Some(d@),
                None => None,
            },
    );
    let mut out: Vec<T> = Vec::new();
    let mut i: usize = 0;
    proof {
        assert(candidates.take(0) =~= Seq::empty());
    }
    while i < docs.len()
        invariant
            i <= docs.len(),
            candidates.len() == docs@.len(),
            forall|k: int|
                0 <= k < docs@.len() ==> #[trigger] candidates[k] == match docs@[k] {
                    Some(d) => Some(d@),
                    None => None,
                },
            readings::<T>(candidates.take(i as int), out@),
        decreases docs.len() - i,
    {
        proof {
            let next = candidates.take(i + 1);
            assert(next.drop_last() =~= candidates.take(i as int));
            assert(next.last() == candidates[i as int]);
        }
        match &docs[i] {
            Some(d) => {
                match T::from_firestore(&d.fields) {
                    Ok(v) => {
                        let ghost before = out@;
                        out.push(v);
                        proof {
                            assert(out@.drop_last() =~= before);
                        }
                    },
                    Err(_) => {},
                }
            },
            None => {},
        }
        i += 1;
    }
    proof {
        assert(candidates.take(i as int) =~= candidates);
    }
    out
}

impl FirebaseClient {
    pub fn new(project_id: String, api_key: String) -> (r: Self)
        ensures
            r.project_id@ == project_id@,
            r.api_key@ == api_key@,
            r.base_url@ == base_url_of(project_id@),
    {
        let base_url = concat3(
            "https://firestore.googleapis.com/v1/projects/",
            project_id.as_str(),
            "/databases/(default)/documents",
        );
        Self { project_id, api_key, base_url }
    }

    /// A copy of the client.
    pub fn clone_client(&self) -> (r: Self)
        ensures
            r.project_id@ == self.project_id@,
            r.api_key@ == self.api_key@,
            r.base_url@ == self.base_url@,
    {
        Self {
            project_id: self.project_id.clone(),
            api_key: self.api_key.clone(),
            base_url: self.base_url.clone(),
        }
    }

    fn collection_address(&self, collection: &str) -> (r: String)
        ensures
            r@ == collection_url(self.base_url@, collection@),
    {
        let path = strip_leading(collection, '/');
        concat3(self.base_url.as_str(), "/", path.as_str())
    }

    fn document_address(&self, collection: &str, doc_id: &str) -> (r: String)
        ensures
            r@ == document_url(self.base_url@, collection@, doc_id@),
    {
        let mut url = self.collection_address(collection);
        url.append("/");
        url.append(doc_id);
        url
    }

    fn with_key(&self, url: String) -> (r: String)
        ensures
            r@ == keyed(url@, self.api_key@),
    {
        let mut url = url;
        url.append("?key=");
        url.append(self.api_key.as_str());
        url
    }

    // ----- typed records ---------------------------------------------------

    /// The request that creates a document from a record: a `POST` to the
    /// collection, with the record's fields as the body.
    pub fn create_request<T: ToFirestore>(&self, collection: &str, item: &T) -> (r: HttpRequest)
        ensures
            r@ == (RequestModel {
                method: HttpMethod::Post,
                url: keyed(collection_url(self.base_url@, collection@), self.api_key@),
                body: Some(fields_body_model(item.fields_model())),
            }),
    {
        let fields = item.to_firestore();
        HttpRequest {
            method: HttpMethod::Post,
            url: self.with_key(self.collection_address(collection)),
            body: Some(fields_body(&fields)),
        }
    }

    /// The id of the created document. Anything but success is a store
    /// error that carries the body; a body that is no document is a `SerdeError`.
    pub fn create_response(response: &HttpResponse) -> (r: Result<String, FirebaseError>)
        ensures
            match r {
                Ok(id) => is_success(response.status) && (body_document(
                    response.body@,
                ) matches Some(d) && id@ == document_id(d.name)),
                Err(e) => if !is_success(response.status) {
                    e@ == store_failure("Failed to create document: "@, response.body@)
                } else {
                    body_document(response.body@) is None && e@.kind == ErrorKind::Serde
                },
            },
    {
        if !status_is_success(response.status) {
            return Err(failure("Failed to create document: ", response.body.as_str()));
        }
        match read_document(response.body.as_str()) {
            Ok(doc) => Ok(last_segment_of(doc.name.as_str(), '/')),
            Err(e) => Err(e),
        }
    }

    /// The request that fetches a document: a `GET` of its address.
    pub fn get_request(&self, collection: &str, doc_id: &str) -> (r: HttpRequest)
        ensures
            r@ == (RequestModel {
                method: HttpMethod::Get,
                url: keyed(document_url(self.base_url@, collection@, doc_id@), self.api_key@),
                body: None,
            }),
    {
        HttpRequest {
            method: HttpMethod::Get,
            url: self.with_key(self.document_address(collection, doc_id)),
            body: None,
        }
    }

    /// The record in the fetched document. Status 404 is `NotFound` with
    /// the id; any other status but success is a store error that carries the
    /// body; a body that is no document is a `SerdeError`; fields that the
    /// record type does not accept are a store error that names the field.
    pub fn get_response<T: FromFirestore>(doc_id: &str, response: &HttpResponse) -> (r: Result<
        T,
        FirebaseError,
    >)
        ensures
            match r {
                Ok(v) => is_success(response.status) && (body_document(
                    response.body@,
                ) matches Some(d) && T::accepts(d.fields) && T::decodes_to(d.fields, &v)),
                Err(e) => if response.status == 404 {
                    e@ == not_found(doc_id@)
                } else if !is_success(response.status) {
                    e@ == store_failure("Failed to get document: "@, response.body@)
                } else {
                    match body_document(response.body@) {
                        Some(d) => !T::accepts(d.fields) && e@ == database_error(
                            "Missing "@ + T::missing_field(d.fields) + " field"@,
                        ),
                        None => e@.kind == ErrorKind::Serde,
                    }
                },
            },
    {
        if response.status == 404 {
            return Err(FirebaseError::NotFound(String::from_str(doc_id)));
        }
        if !status_is_success(response.status) {
            return Err(failure("Failed to get document: ", response.body.as_str()));
        }
        match read_document(response.body.as_str()) {
            Ok(doc) => match T::from_firestore(&doc.fields) {
                Ok(v) => Ok(v),
                Err(e) => Err(e.into_error()),
            },
            Err(e) => Err(e),
        }
    }

    /// The request that updates a document from a record, stamped with the
    /// time `now`: a `PATCH` of its address whose mask names the fields that the
    /// record writes. The body holds those fields and `updated_at`, set to `now`.
    pub fn update_request_at<T: ToFirestore>(
        &self,
        collection: &str,
        doc_id: &str,
        item: &T,
        now: &Timestamp,
    ) -> (r: HttpRequest)
        ensures
            r@ == (RequestModel {
                method: HttpMethod::Patch,
                url: keyed(document_url(self.base_url@, collection@, doc_id@), self.api_key@)
                    + update_mask(names_of(item.fields_model())),
                body: Some(
                    fields_body_model(
                        crate::json::upsert(
                            item.fields_model(),
                            "updated_at"@,
                            FirestoreModel::TimestampValue(now.text()),
                        ),
                    ),
                ),
            }),
    {
        let mut fields = item.to_firestore();
        let names = field_names(&fields);
        proof {
            assert(texts(names@) =~= names_of(item.fields_model()));
        }
        let mut url = self.with_key(self.document_address(collection, doc_id));
        url.append("&updateMask.fieldPaths=");
        url.append(join(&names, "&updateMask.fieldPaths=").as_str());
        proof {
            assert(url@ =~= keyed(
                document_url(self.base_url@, collection@, doc_id@),
                self.api_key@,
            ) + update_mask(names_of(item.fields_model())));
        }
        set_field(
            &mut fields,
            String::from_str("updated_at"),
            FirestoreValue::TimestampValue(now.to_rfc3339()),
        );
        HttpRequest { method: HttpMethod::Patch, url, body: Some(fields_body(&fields)) }
    }

    /// The request that updates a document from a record, stamped with the
    /// present time: what `update_request_at` gives for some instant.
    pub fn update_request<T: ToFirestore>(&self, collection: &str, doc_id: &str, item: &T) -> (r:
        HttpRequest)
        ensures
            r@.method == HttpMethod::Patch,
            r@.url == keyed(document_url(self.base_url@, collection@, doc_id@), self.api_key@)
                + update_mask(names_of(item.fields_model())),
            exists|now: Timestamp|
                r@.body == Some(
                    fields_body_model(
                        crate::json::upsert(
                            item.fields_model(),
                            "updated_at"@,
                            FirestoreModel::TimestampValue(#[trigger] now.text()),
                        ),
                    ),
                ),
    {
        let now = Timestamp::now();
        let r = self.update_request_at(collection, doc_id, item, &now);
        proof {
            assert(r@.body == Some(
                fields_body_model(
                    crate::json::upsert(
                        item.fields_model(),
                        "updated_at"@,
                        FirestoreModel::TimestampValue(now.text()),
                    ),
                ),
            ));
        }
        r
    }

    /// Whether the update went through: anything but success is a store
    /// error that carries the body.
    pub fn update_response(response: &HttpResponse) -> (r: Result<(), FirebaseError>)
        ensures
            match r {
                Ok(_) => is_success(response.status),
                Err(e) => !is_success(response.status) && e@ == store_failure(
                    "Failed to update document: "@,
                    response.body@,
                ),
            },
    {
        if !status_is_success(response.status) {
            return Err(failure("Failed to update document: ", response.body.as_str()));
        }
        Ok(())
    }

    /// The request that deletes a document: a `DELETE` of its address.
    pub fn delete_request(&self, collection: &str, doc_id: &str) -> (r: HttpRequest)
        ensures
            r@ == (RequestModel {
                method: HttpMethod::Delete,
                url: keyed(document_url(self.base_url@, collection@, doc_id@), self.api_key@),
                body: None,
            }),
    {
        HttpRequest {
            method: HttpMethod::Delete,
            url: self.with_key(self.document_address(collection, doc_id)),
            body: None,
        }
    }

    /// Whether the document was deleted. Status 404 is `NotFound` with the
    /// id, never success; any other status but success is a store error that
    /// carries the body.
    pub fn delete_response(doc_id: &str, response: &HttpResponse) -> (r: Result<(), FirebaseError>)
        ensures
            match r {
                Ok(_) => is_success(response.status),
                Err(e) => if response.status == 404 {
                    e@ == not_found(doc_id@)
                } else {
                    !is_success(response.status) && e@ == store_failure(
                        "Failed to delete document: "@,
                        response.body@,
                    )
                },
            },
    {
        if response.status == 404 {
            return Err(FirebaseError::NotFound(String::from_str(doc_id)));
        }
        if !status_is_success(response.status) {
            return Err(failure("Failed to delete document: ", response.body.as_str()));
        }
        Ok(())
    }

    /// The request that lists one page of a collection: a `GET` of the
    /// collection, with the page size where a limit is given.
    pub fn list_request(&self, collection: &str, limit: Option<usize>) -> (r: HttpRequest)
        ensures
            r@ == (RequestModel {
                method: HttpMethod::Get,
                url: match limit {
                    Some(n) => keyed(collection_url(self.base_url@, collection@), self.api_key@)
                        + "&pageSize="@ + decimal(n as nat),
                    None => keyed(collection_url(self.base_url@, collection@), self.api_key@),
                },
                body: None,
            }),
    {
        let mut url = self.with_key(self.collection_address(collection));
        match limit {
            Some(n) => {
                url.append("&pageSize=");
                url.append(format_u64(n as u64).as_str());
            },
            None => {},
        }
        HttpRequest { method: HttpMethod::Get, url, body: None }
    }

    /// The records of the listed page, in order. An entry that is no
    /// document, or whose fields the record type does not accept, is passed
    /// over: the rest of the page still comes through. Anything but success is
    /// a store error that carries the body; a body that is no JSON is a `SerdeError`.
    pub fn list_response<T: FromFirestore>(response: &HttpResponse) -> (r: Result<
        Vec<T>,
        FirebaseError,
    >)
        ensures
            match r {
                Ok(items) => is_success(response.status) && (json_of_text(
                    response.body@,
                ) matches Some(j) && readings::<T>(listed_documents(j), items@)),
                Err(e) => if !is_success(response.status) {
                    e@ == store_failure("Failed to list documents: "@, response.body@)
                } else {
                    json_of_text(response.body@) is None && e@.kind == ErrorKind::Serde
                },
            },
    {
        if !status_is_success(response.status) {
            return Err(failure("Failed to list documents: ", response.body.as_str()));
        }
        let j = match parse_json(response.body.as_str()) {
            Ok(j) => j,
            Err(e) => {
                return Err(e);
            },
        };
        let docs = listed(&j);
        let items = read_all::<T>(docs);
        proof {
            assert(Seq::new(
                docs@.len(),
                |i: int|
                    match docs@[i] {
                        Some(d) => Some(d@),
                        None => None,
                    },
            ) =~= listed_documents(j@));
        }
        Ok(items)
    }

    /// The listed page, entry by entry: for each entry the record in it, or
    /// why the record type does not accept it, or that it is no document. This
    /// is `list_response` for a caller that reports what is passed over. The
    /// failures are those of `list_response`.
    pub fn list_readings<T: FromFirestore>(response: &HttpResponse) -> (r: Result<
        Vec<Reading<T>>,
        FirebaseError,
    >)
        ensures
            match r {
                Ok(out) => is_success(response.status) && (json_of_text(
                    response.body@,
                ) matches Some(j) && each_read::<T>(listed_documents(j), out@)),
                Err(e) => if !is_success(response.status) {
                    e@ == store_failure("Failed to list documents: "@, response.body@)
                } else {
                    json_of_text(response.body@) is None && e@.kind == ErrorKind::Serde
                },
            },
    {
        if !status_is_success(response.status) {
            return Err(failure("Failed to list documents: ", response.body.as_str()));
        }
        let j = match parse_json(response.body.as_str()) {
            Ok(j) => j,
            Err(e) => {
                return Err(e);
            },
        };
        Ok(read_each::<T>(listed(&j)))
    }

    /// The request that runs a structured query: a `POST` to the query
    /// endpoint, with the query as the body.
    pub fn query_request(&self, query: &StructuredQuery) -> (r: HttpRequest)
        ensures
            r@ == (RequestModel {
                method: HttpMethod::Post,
                url: self.base_url@ + ":runQuery?key="@ + self.api_key@,
                body: Some(tagged("structuredQuery"@, query_json(*query))),
            }),
    {
        let url = concat3(self.base_url.as_str(), ":runQuery?key=", self.api_key.as_str());
        let mut entries: Vec<(String, JsonValue)> = Vec::new();
        entries.push((String::from_str("structuredQuery"), query.to_json()));
        proof {
            lemma_view_object(entries);
            assert(entries_view(entries@) =~= seq![("structuredQuery"@, query_json(*query))]);
        }
        HttpRequest { method: HttpMethod::Post, url, body: Some(JsonValue::Object(entries)) }
    }

    /// The records that a query found, in order. The response holds one
    /// result on each line; a line that is blank, is no JSON, holds no
    /// document, or holds one whose fields the record type does not accept, is
    /// passed over. Anything but success is a store error that carries the body.
    pub fn query_response<T: FromFirestore>(response: &HttpResponse) -> (r: Result<
        Vec<T>,
        FirebaseError,
    >)
        ensures
            match r {
                Ok(items) => is_success(response.status) && readings::<T>(
                    line_documents(response.body@),
                    items@,
                ),
                Err(e) => !is_success(response.status) && e@ == store_failure(
                    "Failed to run query: "@,
                    response.body@,
                ),
            },
    {
        if !status_is_success(response.status) {
            return Err(failure("Failed to run query: ", response.body.as_str()));
        }
        let docs = documents_on_lines(response.body.as_str());
        let items = read_all::<T>(docs);
        proof {
            assert(Seq::new(
                docs@.len(),
                |i: int|
                    match docs@[i] {
                        Some(d) => Some(d@),
                        None => None,
                    },
            ) =~= line_documents(response.body@));
        }
        Ok(items)
    }

    /// The response to a query, line by line: for each line the record on
    /// it, or why the record type does not accept the document on it, or that
    /// it holds no document (a blank line, a line that is no JSON, a line that
    /// only reports progress). This is `query_response` for a caller that
    /// reports what is passed over. The failures are those of `query_response`.
    pub fn query_readings<T: FromFirestore>(response: &HttpResponse) -> (r: Result<
        Vec<Reading<T>>,
        FirebaseError,
    >)
        ensures
            match r {
                Ok(out) => is_success(response.status) && each_read::<T>(
                    line_documents(response.body@),
                    out@,
                ),
                Err(e) => !is_success(response.status) && e@ == store_failure(
                    "Failed to run query: "@,
                    response.body@,
                ),
            },
    {
        if !status_is_success(response.status) {
            return Err(failure("Failed to run query: ", response.body.as_str()));
        }
        Ok(read_each::<T>(documents_on_lines(response.body.as_str())))
    }

    /// A builder for a query on `collection`.
    pub fn query_builder(collection: &str) -> (r: QueryBuilder)
        ensures
            r.query().selects(collection@),
            r.query().filter is None,
            r.query().order_by is None,
            r.query().limit is None,
            r.query().offset is None,
    {
        QueryBuilder::new(collection)
    }

    // ----- dynamic values --------------------------------------------------

    /// The request that creates a document from a dynamic object: a `POST`
    /// to the collection, with the id as a parameter where one is given. A
    /// payload that is no object is a `ValidationError`.
    pub fn create_document_request(
        &self,
        collection: &str,
        doc_id: Option<&str>,
        data: &JsonValue,
    ) -> (r: Result<HttpRequest, FirebaseError>)
        ensures
            match r {
                Ok(request) => data@ is Object && request@ == (RequestModel {
                    method: HttpMethod::Post,
                    url: match doc_id {
                        Some(id) => keyed(
                            collection_url(self.base_url@, collection@),
                            self.api_key@,
                        ) + "&documentId="@ + id@,
                        None => keyed(collection_url(self.base_url@, collection@), self.api_key@),
                    },
                    body: Some(fields_body_model(wire_of_entries(data@->Object_0))),
                }),
                Err(e) => !(data@ is Object) && e@ == validation_error(
                    "Root value must be an object"@,
                ),
            },
    {
        let fields = match json_to_firestore_fields(data) {
            Ok(fields) => fields,
            Err(e) => {
                return Err(e);
            },
        };
        let mut url = self.with_key(self.collection_address(collection));
        match doc_id {
            Some(id) => {
                url.append("&documentId=");
                url.append(id);
            },
            None => {},
        }
        Ok(HttpRequest { method: HttpMethod::Post, url, body: Some(fields_body(&fields)) })
    }

    /// The id of the created document. Anything but success is a store
    /// error that carries the body; a body that is no document is a `SerdeError`.
    pub fn create_document_response(response: &HttpResponse) -> (r: Result<String, FirebaseError>)
        ensures
            match r {
                Ok(id) => is_success(response.status) && (body_document(
                    response.body@,
                ) matches Some(d) && id@ == document_id(d.name)),
                Err(e) => if !is_success(response.status) {
                    e@ == store_failure("Create failed: "@, response.body@)
                } else {
                    body_document(response.body@) is None && e@.kind == ErrorKind::Serde
                },
            },
    {
        if !status_is_success(response.status) {
            return Err(failure("Create failed: ", response.body.as_str()));
        }
        match read_document(response.body.as_str()) {
            Ok(doc) => Ok(last_segment_of(doc.name.as_str(), '/')),
            Err(e) => Err(e),
        }
    }

    /// The request that fetches a document: a `GET` of its address.
    pub fn get_document_request(&self, collection: &str, doc_id: &str) -> (r: HttpRequest)
        ensures
            r@ == (RequestModel {
                method: HttpMethod::Get,
                url: keyed(document_url(self.base_url@, collection@, doc_id@), self.api_key@),
                body: None,
            }),
    {
        self.get_request(collection, doc_id)
    }

    /// The fetched document as a dynamic object. Status 404 is `NotFound`,
    /// naming the document and the collection; any other status but success is
    /// a store error that carries the body; a body that is no document is a
    /// `SerdeError`.
    pub fn get_document_response(collection: &str, doc_id: &str, response: &HttpResponse) -> (r:
        Result<JsonValue, FirebaseError>)
        ensures
            match r {
                Ok(v) => is_success(response.status) && (body_document(
                    response.body@,
                ) matches Some(d) && v@ == JsonModel::Object(json_of_fields(d.fields))),
                Err(e) => if response.status == 404 {
                    e@ == not_found(missing_document(doc_id@, collection@))
                } else if !is_success(response.status) {
                    e@ == store_failure("Get failed: "@, response.body@)
                } else {
                    body_document(response.body@) is None && e@.kind == ErrorKind::Serde
                },
            },
    {
        if response.status == 404 {
            return Err(missing(doc_id, collection));
        }
        if !status_is_success(response.status) {
            return Err(failure("Get failed: ", response.body.as_str()));
        }
        match read_document(response.body.as_str()) {
            Ok(doc) => Ok(firestore_fields_to_json(&doc.fields)),
            Err(e) => Err(e),
        }
    }

    /// The request that updates a document from a dynamic object: a `PATCH`
    /// of its address. With `merge`, the mask names the top-level fields of the
    /// payload, in order, so that the store keeps every other field of the
    /// document; without it there is no mask, and the store replaces the
    /// document. A payload that is no object is a `ValidationError`.
    pub fn update_document_request(
        &self,
        collection: &str,
        doc_id: &str,
        data: &JsonValue,
        merge: bool,
    ) -> (r: Result<HttpRequest, FirebaseError>)
        ensures
            match r {
                Ok(request) => data@ is Object && request@ == (RequestModel {
                    method: HttpMethod::Patch,
                    url: if merge {
                        keyed(document_url(self.base_url@, collection@, doc_id@), self.api_key@)
                            + update_mask(crate::json::keys_of(data@->Object_0))
                    } else {
                        keyed(document_url(self.base_url@, collection@, doc_id@), self.api_key@)
                    },
                    body: Some(fields_body_model(wire_of_entries(data@->Object_0))),
                }),
                Err(e) => !(data@ is Object) && e@ == validation_error(
                    "Root value must be an object"@,
                ),
            },
    {
        let fields = match json_to_firestore_fields(data) {
            Ok(fields) => fields,
            Err(e) => {
                return Err(e);
            },
        };
        let mut url = self.with_key(self.document_address(collection, doc_id));
        if merge {
            let names = field_names(&fields);
            proof {
                let keys = crate::json::keys_of(data@->Object_0);
                assert forall|i: int| 0 <= i < keys.len() implies texts(names@)[i] == keys[i] by {
                    assert(fields_view(fields@)[i].0 == fields@[i].0@);
                }
                assert(texts(names@) =~= keys);
            }
            url.append("&updateMask.fieldPaths=");
            url.append(join(&names, "&updateMask.fieldPaths=").as_str());
            proof {
                assert(url@ =~= keyed(
                    document_url(self.base_url@, collection@, doc_id@),
                    self.api_key@,
                ) + update_mask(crate::json::keys_of(data@->Object_0)));
            }
        }
        Ok(HttpRequest { method: HttpMethod::Patch, url, body: Some(fields_body(&fields)) })
    }

    /// Whether the update went through: anything but success is a store
    /// error that carries the body.
    pub fn update_document_response(response: &HttpResponse) -> (r: Result<(), FirebaseError>)
        ensures
            match r {
                Ok(_) => is_success(response.status),
                Err(e) => !is_success(response.status) && e@ == store_failure(
                    "Update failed: "@,
                    response.body@,
                ),
            },
    {
        if !status_is_success(response.status) {
            return Err(failure("Update failed: ", response.body.as_str()));
        }
        Ok(())
    }

    /// The request that deletes a document: a `DELETE` of its address.
    pub fn delete_document_request(&self, collection: &str, doc_id: &str) -> (r: HttpRequest)
        ensures
            r@ == (RequestModel {
                method: HttpMethod::Delete,
                url: keyed(document_url(self.base_url@, collection@, doc_id@), self.api_key@),
                body: None,
            }),
    {
        self.delete_request(collection, doc_id)
    }

    /// Whether the document was deleted. Status 404 is `NotFound`, naming
    /// the document and the collection: deleting what is not there does not
    /// count as success. Any other status but success is a store error that
    /// carries the body.
    pub fn delete_document_response(collection: &str, doc_id: &str, response: &HttpResponse) -> (r:
        Result<(), FirebaseError>)
        ensures
            match r {
                Ok(_) => is_success(response.status),
                Err(e) => if response.status == 404 {
                    e@ == not_found(missing_document(doc_id@, collection@))
                } else {
                    !is_success(response.status) && e@ == store_failure(
                        "Delete failed: "@,
                        response.body@,
                    )
                },
            },
    {
        if response.status == 404 {
            return Err(missing(doc_id, collection));
        }
        if !status_is_success(response.status) {
            return Err(failure("Delete failed: ", response.body.as_str()));
        }
        Ok(())
    }

    /// The request that lists the documents of a collection as they are.
    pub fn list_documents_request(&self, collection: &str) -> (r: HttpRequest)
        ensures
            r@ == (RequestModel {
                method: HttpMethod::Get,
                url: keyed(collection_url(self.base_url@, collection@), self.api_key@),
                body: None,
            }),
    {
        self.list_request(collection, None)
    }

    /// The listed documents, each with its id and its fields as a dynamic
    /// object, no more than `limit` entries of the page being looked at.
    /// Anything but success is a store error that carries the body, and so is
    /// a body that is no JSON.
    pub fn list_documents_response(response: &HttpResponse, limit: Option<usize>) -> (r: Result<
        Vec<(String, JsonValue)>,
        FirebaseError,
    >)
        ensures
            match r {
                Ok(items) => is_success(response.status) && (json_of_text(
                    response.body@,
                ) matches Some(j) && listing(listed_documents(j), limit, entries_view(items@))),
                Err(e) => if !is_success(response.status) {
                    e@ == store_failure("List failed: "@, response.body@)
                } else {
                    json_of_text(response.body@) is None && e@.kind == ErrorKind::Database
                },
            },
    {
        if !status_is_success(response.status) {
            return Err(failure("List failed: ", response.body.as_str()));
        }
        let j = match parse_json(response.body.as_str()) {
            Ok(j) => j,
            Err(e) => {
                return Err(failure("JSON parsing failed: ", e.detail()));
            },
        };
        let docs = listed(&j);
        let ghost candidates = listed_documents(j@);
        let mut out: Vec<(String, JsonValue)> = Vec::new();
        let mut i: usize = 0;
        proof {
            assert(candidates.take(0) =~= Seq::empty());
            assert(entries_view(out@) =~= Seq::empty());
        }
        while i < docs.len()
            invariant
                i <= docs.len(),
                candidates.len() == docs@.len(),
                forall|k: int|
                    0 <= k < docs@.len() ==> #[trigger] candidates[k] == match docs@[k] {
                        Some(d) => Some(d@),
                        None => None,
                    },
                listing(candidates.take(i as int), limit, entries_view(out@)),
            decreases docs.len() - i,
        {
            proof {
                let next = candidates.take(i + 1);
                assert(next.drop_last() =~= candidates.take(i as int));
                assert(next.last() == candidates[i as int]);
            }
            let within = match limit {
                Some(n) => i < n,
                None => true,
            };
            match &docs[i] {
                Some(d) => {
                    if within {
                        let ghost before = entries_view(out@);
                        let id = last_segment_of(d.name.as_str(), '/');
                        let value = firestore_fields_to_json(&d.fields);
                        out.push((id, value));
                        proof {
                            assert(entries_view(out@).drop_last() =~= before);
                        }
                    }
                },
                None => {},
            }
            i += 1;
        }
        proof {
            assert(candidates.take(i as int) =~= candidates);
        }
        Ok(out)
    }
}

/// The entries of a list response, each read as a document where it is one.
fn listed(j: &JsonValue) -> (r: Vec<Option<Document>>)
    ensures
        r@.len() == listed_documents(j@).len(),
        forall|i: int|
            0 <= i < r@.len() ==> #[trigger] listed_documents(j@)[i] == match r@[i] {
                Some(d) => Some(d@),
                None => None,
            },
{
    let mut out: Vec<Option<Document>> = Vec::new();
    proof {
        if let JsonModel::Object(entries) = j@ {
            crate::json::lemma_index_of_key(entries, "documents"@);
        }
    }
    match j.get("documents") {
        Some(JsonValue::Array(items)) => {
            proof {
                lemma_view_array(*items);
                assert(member_items(j@, "documents"@) == values_view(items@));
            }
            let mut i: usize = 0;
            while i < items.len()
                invariant
                    i <= items.len(),
                    out@.len() == i,
                    forall|k: int|
                        0 <= k < i ==> document_of_json(items@[k]@) == match #[trigger] out@[k] {
                            Some(d) => Some(d@),
                            None => None,
                        },
                decreases items.len() - i,
            {
                out.push(decode_document(&items[i]));
                i += 1;
            }
        },
        _ => {
            proof {
                assert(member_items(j@, "documents"@).len() == 0);
            }
        },
    }
    out
}

/// The document on one line of a query's response.
pub fn document_on_line(line: &str) -> (r: Option<Document>)
    ensures
        line_document(line@) == match r {
            Some(d) => Some(d@),
            None => None,
        },
{
    if str_is_blank(line) {
        return None;
    }
    match parse_json(line) {
        Ok(j) => envelope_document(&j),
        Err(_) => None,
    }
}

/// The document in one result of a query, where the result holds one.
pub fn envelope_document(envelope: &JsonValue) -> (r: Option<Document>)
    ensures
        match envelope@.member("document"@) {
            Some(d) => document_of_json(d),
            None => None,
        } == match r {
            Some(d) => Some(d@),
            None => None,
        },
{
    match envelope.get("document") {
        Some(d) => decode_document(d),
        None => None,
    }
}

/// The documents on the lines of a query's response, line by line.
fn documents_on_lines(body: &str) -> (r: Vec<Option<Document>>)
    ensures
        r@.len() == line_documents(body@).len(),
        forall|i: int|
            0 <= i < r@.len() ==> #[trigger] line_documents(body@)[i] == match r@[i] {
                Some(d) => Some(d@),
                None => None,
            },
{
    let lines = split_on(body, '\n');
    let mut out: Vec<Option<Document>> = Vec::new();
    let mut i: usize = 0;
    while i < lines.len()
        invariant
            i <= lines.len(),
            out@.len() == i,
            texts(lines@) == split(body@, '\n'),
            forall|k: int|
                0 <= k < i ==> line_document(lines@[k]@) == match #[trigger] out@[k] {
                    Some(d) => Some(d@),
                    None => None,
                },
        decreases lines.len() - i,
    {
        out.push(document_on_line(lines[i].as_str()));
        i += 1;
    }
    proof {
        assert forall|k: int| 0 <= k < out@.len() implies #[trigger] line_documents(body@)[k]
            == match out@[k] {
            Some(d) => Some(d@),
            None => None,
        } by {
            assert(texts(lines@)[k] == lines@[k]@);
        }
    }
    out
}


/// The records among what was read of each candidate are the readings that
/// `list_response` and `query_response` give: nothing but what was rejected
/// or is no document is passed over, and the order stays.
pub proof fn lemma_records_are_readings<T: FromFirestore>(
    candidates: Seq<Option<DocumentModel>>,
    each: Seq<Reading<T>>,
    records: Seq<T>,
)
    requires
        each_read::<T>(candidates, each),
        records == records_of(each),
    ensures
        readings::<T>(candidates, records),
    decreases candidates.len(),
{
    if candidates.len() > 0 {
        let rest = each.drop_last();
        assert(each_read::<T>(candidates.drop_last(), rest)) by {
            assert forall|i: int| 0 <= i < rest.len() implies is_reading(
                candidates.drop_last()[i],
                #[trigger] rest[i],
            ) by {
                assert(rest[i] == each[i]);
            }
        }
        assert(is_reading(candidates.last(), each.last()));
        lemma_records_are_readings::<T>(candidates.drop_last(), rest, records_of(rest));
        match each.last() {
            Reading::Record(v) => {
                assert(records.drop_last() =~= records_of(rest));
            },
            _ => {},
        }
    }
}

/// Create, then get: where the store hands back the fields that a create
/// request sent for a dynamic object, under whatever name and times, the
/// document reads as the object that was sent (an object that holds no
/// integer beyond 64 bits).
pub proof fn lemma_create_then_get(entries: Seq<(Seq<char>, JsonModel)>, stored: JsonModel)
    requires
        crate::convert::fits_in_64_bits(JsonModel::Object(entries)),
        stored.member("name"@) matches Some(JsonModel::String(_)),
        stored.member("fields"@) == Some(
            fields_body_model(wire_of_entries(entries))->Object_0[0].1,
        ),
    ensures
        document_of_json(stored) matches Some(d) && JsonModel::Object(json_of_fields(d.fields))
            == JsonModel::Object(entries),
{
    let sent = wire_of_entries(entries);
    crate::wire::lemma_decode_encode_fields(sent);
    crate::convert::lemma_fields_round_trip(entries);
}

} // verus!
