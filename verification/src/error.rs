//! The error type of the request handlers and its HTTP status.

use vstd::prelude::*;
use vstd::string::*;

verus! {

/// A failed request: the variant gives the HTTP status, the text the message.
#[derive(Debug, PartialEq, Eq)]
pub enum AppError {
    BadRequest(String),
    Auth(String),
    NotFound(String),
    Internal(String),
}

/// The HTTP status code that answers each kind of error.
pub open spec fn status_of(e: AppError) -> u16 {
    match e {
        AppError::BadRequest(_) => 400,
        AppError::Auth(_) => 401,
        AppError::NotFound(_) => 404,
        AppError::Internal(_) => 500,
    }
}

/// The message an error carries.
pub open spec fn message_of(e: AppError) -> Seq<char> {
    match e {
        AppError::BadRequest(m) => m@,
        AppError::Auth(m) => m@,
        AppError::NotFound(m) => m@,
        AppError::Internal(m) => m@,
    }
}

impl AppError {
    /// The HTTP status and the message of the response to this error.
    pub fn into_parts(self) -> (r: (u16, String))
        ensures
            r.0 == status_of(self),
            r.1@ == message_of(self),
    {
        match self {
            AppError::BadRequest(m) => (400, m),
            AppError::Auth(m) => (401, m),
            AppError::NotFound(m) => (404, m),
            AppError::Internal(m) => (500, m),
        }
    }

    /// The error for a failed database call: a missing row is "not found",
    /// anything else is internal and carries the database's message.
    pub fn from_db_error(row_not_found: bool, text: String) -> (r: AppError)
        ensures
            row_not_found ==> (r matches AppError::NotFound(m) && m@ == "not found"@),
            !row_not_found ==> r == AppError::Internal(text),
    {
        if row_not_found {
            AppError::NotFound(String::from_str("not found"))
        } else {
            AppError::Internal(text)
        }
    }
}

} // verus!
