//! The error type shared by every operation of the library.

use vstd::prelude::*;
use crate::text::concat2;

verus! {

/// What went wrong, without the detail: callers branch on this.
#[derive(Clone, Copy, Debug, PartialEq, Eq, Structural)]
pub enum ErrorKind {
    /// The HTTP exchange itself failed.
    Request,
    /// A JSON text could not be read or written.
    Serde,
    /// A file could not be read or written.
    Io,
    /// The document or collection does not exist.
    NotFound,
    /// The store refused the credentials.
    Auth,
    /// The configuration is missing or invalid.
    Config,
    /// The store answered with a failure.
    Database,
    /// A value breaks a rule of its schema.
    Validation,
}

#[derive(Debug)]
pub enum FirebaseError {
    RequestError(String),
    SerdeError(String),
    IoError(String),
    NotFound(String),
    AuthError(String),
    ConfigError(String),
    DatabaseError(String),
    ValidationError(String),
}

/// An error as contracts see it: its kind and the text it carries.
pub ghost struct ErrorModel {
    pub kind: ErrorKind,
    pub detail: Seq<char>,
}

pub open spec fn kind_prefix(kind: ErrorKind) -> Seq<char> {
    match kind {
        ErrorKind::Request => "HTTP request failed: "@,
        ErrorKind::Serde => "JSON serialization/deserialization failed: "@,
        ErrorKind::Io => "IO operation failed: "@,
        ErrorKind::NotFound => "Document not found: "@,
        ErrorKind::Auth => "Authentication failed: "@,
        ErrorKind::Config => "Invalid configuration: "@,
        ErrorKind::Database => "Database operation failed: "@,
        ErrorKind::Validation => "Validation failed: "@,
    }
}

impl View for FirebaseError {
    type V = ErrorModel;

    open spec fn view(&self) -> ErrorModel {
        match self {
            FirebaseError::RequestError(s) => ErrorModel { kind: ErrorKind::Request, detail: s@ },
            FirebaseError::SerdeError(s) => ErrorModel { kind: ErrorKind::Serde, detail: s@ },
            FirebaseError::IoError(s) => ErrorModel { kind: ErrorKind::Io, detail: s@ },
            FirebaseError::NotFound(s) => ErrorModel { kind: ErrorKind::NotFound, detail: s@ },
            FirebaseError::AuthError(s) => ErrorModel { kind: ErrorKind::Auth, detail: s@ },
            FirebaseError::ConfigError(s) => ErrorModel { kind: ErrorKind::Config, detail: s@ },
            FirebaseError::DatabaseError(s) => ErrorModel { kind: ErrorKind::Database, detail: s@ },
            FirebaseError::ValidationError(s) => ErrorModel {
                kind: ErrorKind::Validation,
                detail: s@,
            },
        }
    }
}

/// A store failure with the given text.
pub open spec fn database_error(detail: Seq<char>) -> ErrorModel {
    ErrorModel { kind: ErrorKind::Database, detail }
}

/// A failure to read or write JSON, with the given text.
pub open spec fn serde_error(detail: Seq<char>) -> ErrorModel {
    ErrorModel { kind: ErrorKind::Serde, detail }
}

/// A validation failure with the given text.
pub open spec fn validation_error(detail: Seq<char>) -> ErrorModel {
    ErrorModel { kind: ErrorKind::Validation, detail }
}

/// A configuration failure with the given text.
pub open spec fn config_error(detail: Seq<char>) -> ErrorModel {
    ErrorModel { kind: ErrorKind::Config, detail }
}

/// A missing document or collection, named by the given text.
pub open spec fn not_found(detail: Seq<char>) -> ErrorModel {
    ErrorModel { kind: ErrorKind::NotFound, detail }
}

impl FirebaseError {
    /// The kind of the error.
    pub fn kind(&self) -> (k: ErrorKind)
        ensures
            k == self@.kind,
    {
        match self {
            FirebaseError::RequestError(_) => ErrorKind::Request,
            FirebaseError::SerdeError(_) => ErrorKind::Serde,
            FirebaseError::IoError(_) => ErrorKind::Io,
            FirebaseError::NotFound(_) => ErrorKind::NotFound,
            FirebaseError::AuthError(_) => ErrorKind::Auth,
            FirebaseError::ConfigError(_) => ErrorKind::Config,
            FirebaseError::DatabaseError(_) => ErrorKind::Database,
            FirebaseError::ValidationError(_) => ErrorKind::Validation,
        }
    }

    /// The text that the error carries.
    pub fn detail(&self) -> (s: &str)
        ensures
            s@ == self@.detail,
    {
        match self {
            FirebaseError::RequestError(s) => s.as_str(),
            FirebaseError::SerdeError(s) => s.as_str(),
            FirebaseError::IoError(s) => s.as_str(),
            FirebaseError::NotFound(s) => s.as_str(),
            FirebaseError::AuthError(s) => s.as_str(),
            FirebaseError::ConfigError(s) => s.as_str(),
            FirebaseError::DatabaseError(s) => s.as_str(),
            FirebaseError::ValidationError(s) => s.as_str(),
        }
    }

    /// The message shown to a user: what kind of failure, then the detail.
    pub fn message(&self) -> (s: String)
        ensures
            s@ == kind_prefix(self@.kind) + self@.detail,
    {
        let prefix = match self {
            FirebaseError::RequestError(_) => "HTTP request failed: ",
            FirebaseError::SerdeError(_) => "JSON serialization/deserialization failed: ",
            FirebaseError::IoError(_) => "IO operation failed: ",
            FirebaseError::NotFound(_) => "Document not found: ",
            FirebaseError::AuthError(_) => "Authentication failed: ",
            FirebaseError::ConfigError(_) => "Invalid configuration: ",
            FirebaseError::DatabaseError(_) => "Database operation failed: ",
            FirebaseError::ValidationError(_) => "Validation failed: ",
        };
        concat2(prefix, self.detail())
    }
}

} // verus!
