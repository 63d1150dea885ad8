//! The kinds of failure, and the HTTP status that the management plane gives
//! each.

use vstd::prelude::*;

verus! {

/// Why an operation failed.
#[derive(Clone, Copy, Debug, PartialEq, Eq, Structural)]
pub enum Error {
    /// The row does not exist, or the caller does not own it.
    NotFound,
    /// The bearer token was missing, invalid, or without a subject.
    Unauthorized,
    /// The data-plane credential was missing or invalid.
    PermissionDenied,
    /// The request body was malformed.
    BadInput,
    /// A unique constraint was violated.
    Conflict,
    /// The database refused or failed.
    Database,
    /// The configuration was malformed.
    Config,
    /// A collaborator outside the service failed.
    Infra,
}

/// The HTTP status of each kind of failure.
pub open spec fn http_status(e: Error) -> u16 {
    match e {
        Error::NotFound => 404,
        Error::Unauthorized => 401,
        Error::PermissionDenied => 403,
        Error::BadInput => 400,
        Error::Conflict => 409,
        Error::Database => 500,
        Error::Config => 500,
        Error::Infra => 500,
    }
}

/// The short text of each kind of failure.
pub open spec fn error_text(e: Error) -> Seq<char> {
    match e {
        Error::NotFound => "Not found"@,
        Error::Unauthorized => "Unauthorized"@,
        Error::PermissionDenied => "Permission denied"@,
        Error::BadInput => "Bad input"@,
        Error::Conflict => "Conflict"@,
        Error::Database => "Database error"@,
        Error::Config => "Configuration error"@,
        Error::Infra => "Server error"@,
    }
}

impl Error {
    /// The HTTP status that the management plane answers with.
    pub fn status_code(&self) -> (r: u16)
        ensures
            r == http_status(*self),
    {
        match self {
            Error::NotFound => 404,
            Error::Unauthorized => 401,
            Error::PermissionDenied => 403,
            Error::BadInput => 400,
            Error::Conflict => 409,
            Error::Database => 500,
            Error::Config => 500,
            Error::Infra => 500,
        }
    }

    /// The text that goes with the status.
    pub fn to_string(&self) -> (r: String)
        ensures
            r@ == error_text(*self),
    {
        match self {
            Error::NotFound => "Not found".to_owned(),
            Error::Unauthorized => "Unauthorized".to_owned(),
            Error::PermissionDenied => "Permission denied".to_owned(),
            Error::BadInput => "Bad input".to_owned(),
            Error::Conflict => "Conflict".to_owned(),
            Error::Database => "Database error".to_owned(),
            Error::Config => "Configuration error".to_owned(),
            Error::Infra => "Server error".to_owned(),
        }
    }
}

} // verus!
