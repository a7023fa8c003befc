//! The error taxonomy of the identity core.
//!
//! Validation gathers every failing field before returning - it never stops
//! at the first bad field. Authentication failures are a single opaque
//! `Unauthorized`, which does not distinguish an unknown token from a
//! storage fault, so no system state leaks to the client. Storage failures
//! surface as `Internal` with a generic message only.

use vstd::prelude::*;

verus! {

/// The messages gathered for one failing input field.
pub struct FieldErrors {
    /// Name of the input field.
    pub field: String,
    /// Every message recorded against the field, in the order the rules run.
    pub messages: Vec<String>,
}

/// All failing fields of one request, gathered before anything is written.
pub struct ValidationError {
    /// One entry per failing field, in the order the fields are checked.
    pub fields: Vec<FieldErrors>,
}

/// The mathematical content of gathered field errors: each entry as the
/// pair of its field name and its message texts.
pub open spec fn fields_view(fields: Seq<FieldErrors>) -> Seq<(Seq<char>, Seq<Seq<char>>)> {
    fields.map_values(|f: FieldErrors| (f.field@, f.messages@.map_values(|m: String| m@)))
}

/// Why an operation of the identity core failed.
pub enum ApiError {
    /// One or more input fields are rejected; every failing field is listed.
    Validation(ValidationError),
    /// The bearer token is missing, undecodable, unknown or revoked, or the
    /// presented credentials are wrong.
    Unauthorized,
    /// A referenced account, permission or role does not exist.
    NotFound,
    /// A unique code is already taken by another catalog entry.
    Conflict,
    /// The underlying store failed; nothing beyond a generic message is
    /// exposed.
    Internal,
}

impl FieldErrors {
    /// One field with one message.
    pub fn one(field: &str, message: &str) -> (r: FieldErrors)
        ensures
            r.field@ == field@,
            r.messages@.len() == 1,
            r.messages@[0]@ == message@,
    {
        let mut messages: Vec<String> = Vec::new();
        messages.push(message.to_owned());
        FieldErrors { field: field.to_owned(), messages }
    }
}

impl ApiError {
    /// The generic message shown for an internal failure.
    pub fn internal_message() -> (r: String)
        ensures
            r@ == "internal server error"@,
    {
        "internal server error".to_owned()
    }
}

} // verus!
