//! Error taxonomy shared by every operation of the core.

use vstd::prelude::*;

verus! {

/// One field-level message of a validation failure.
#[derive(Debug)]
pub struct FieldError {
    pub message: String,
    pub field: String,
}

/// Classification of a failure, stable across transports.
#[derive(Clone, Copy, PartialEq, Eq, Structural, Debug)]
pub enum ErrorKind {
    /// One or more field-level problems in the caller's input.
    ValidationFailure,
    /// A referenced form, respondent, submission or user does not exist.
    NotFound,
    /// A lifecycle rule forbids the operation (illegal transition, mutation
    /// outside Draft, capacity exceeded).
    Forbidden,
    /// Duplicate registration or duplicate account email.
    Conflict,
    /// Missing, invalid, expired or revoked bearer credential.
    Unauthenticated,
    /// Opaque backing-store failure, passed through untouched.
    StoreFailure,
}

/// A failure carried back to the caller: a kind, a stable message and,
/// for validation failures, the per-field messages.
#[derive(Debug)]
pub struct BaseError {
    pub kind: ErrorKind,
    pub message: String,
    pub fields: Option<Vec<FieldError>>,
}

impl BaseError {
    /// Wraps an opaque message from the storage layer.
    pub fn new(msg: String) -> (r: BaseError)
        ensures
            r.kind == ErrorKind::StoreFailure,
            r.message == msg,
            r.fields is None,
    {
        BaseError { kind: ErrorKind::StoreFailure, message: msg, fields: None }
    }

    pub fn not_found(msg: String) -> (r: BaseError)
        ensures
            r.kind == ErrorKind::NotFound,
            r.message == msg,
            r.fields is None,
    {
        BaseError { kind: ErrorKind::NotFound, message: msg, fields: None }
    }

    pub fn forbidden() -> (r: BaseError)
        ensures
            r.kind == ErrorKind::Forbidden,
            r.message@ == "Forbidden"@,
            r.fields is None,
    {
        BaseError { kind: ErrorKind::Forbidden, message: "Forbidden".to_owned(), fields: None }
    }

    pub fn conflict(msg: String) -> (r: BaseError)
        ensures
            r.kind == ErrorKind::Conflict,
            r.message == msg,
            r.fields is None,
    {
        BaseError { kind: ErrorKind::Conflict, message: msg, fields: None }
    }

    pub fn unauthenticated(msg: String) -> (r: BaseError)
        ensures
            r.kind == ErrorKind::Unauthenticated,
            r.message == msg,
            r.fields is None,
    {
        BaseError { kind: ErrorKind::Unauthenticated, message: msg, fields: None }
    }

    /// A validation failure with its field-level messages.
    pub fn validation(fields: Vec<FieldError>) -> (r: BaseError)
        ensures
            r.kind == ErrorKind::ValidationFailure,
            r.message@ == ""@,
            r.fields == Some(fields),
    {
        BaseError {
            kind: ErrorKind::ValidationFailure,
            message: "".to_owned(),
            fields: Some(fields),
        }
    }
}

} // verus!
