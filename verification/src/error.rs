//! The unified application error and the reply it is turned into.

use vstd::prelude::*;
use vstd::string::*;

verus! {

/// The outside error type carried by internal server errors.
#[verifier::external_type_specification]
#[verifier::external_body]
pub struct ExAnyhowError(anyhow::Error);

/// Unified application error type returned by the request handlers.
pub enum AppError {
    BadRequest(String),
    NotFound(String),
    Forbidden,
    Unprocessable(String),
    Internal(anyhow::Error),
}

/// The parts of the JSON error envelope that an error is answered with.
pub struct ErrorReply {
    pub status: u16,
    pub code: &'static str,
    pub message: String,
}

pub open spec fn spec_status(e: &AppError) -> u16 {
    match e {
        AppError::BadRequest(_) => 400,
        AppError::NotFound(_) => 404,
        AppError::Forbidden => 403,
        AppError::Unprocessable(_) => 422,
        AppError::Internal(_) => 500,
    }
}

pub open spec fn spec_code(e: &AppError) -> Seq<char> {
    match e {
        AppError::BadRequest(_) => "BAD_REQUEST"@,
        AppError::NotFound(_) => "NOT_FOUND"@,
        AppError::Forbidden => "FORBIDDEN"@,
        AppError::Unprocessable(_) => "UNPROCESSABLE"@,
        AppError::Internal(_) => "INTERNAL_SERVER_ERROR"@,
    }
}

pub open spec fn spec_message(e: &AppError) -> Seq<char> {
    match e {
        AppError::BadRequest(m) => m@,
        AppError::NotFound(m) => m@,
        AppError::Forbidden => "Access denied"@,
        AppError::Unprocessable(m) => m@,
        AppError::Internal(_) => "An internal server error occurred"@,
    }
}

impl AppError {
    /// A `NotFound` error with the given message.
    pub fn not_found(msg: &str) -> (e: AppError)
        ensures
            e matches AppError::NotFound(m) && m@ == msg@,
    {
        AppError::NotFound(String::from_str(msg))
    }

    /// A `BadRequest` error with the given message.
    pub fn bad_request(msg: &str) -> (e: AppError)
        ensures
            e matches AppError::BadRequest(m) && m@ == msg@,
    {
        AppError::BadRequest(String::from_str(msg))
    }

    /// An `Unprocessable` error with the given message.
    pub fn unprocessable(msg: &str) -> (e: AppError)
        ensures
            e matches AppError::Unprocessable(m) && m@ == msg@,
    {
        AppError::Unprocessable(String::from_str(msg))
    }

    /// The HTTP status, error code and message that this error is answered with.
    pub fn reply(&self) -> (r: ErrorReply)
        ensures
            r.status == spec_status(self),
            r.code@ == spec_code(self),
            r.message@ == spec_message(self),
    {
        match self {
            AppError::BadRequest(m) => ErrorReply {
                status: 400,
                code: "BAD_REQUEST",
                message: m.clone(),
            },
            AppError::NotFound(m) => ErrorReply { status: 404, code: "NOT_FOUND", message: m.clone() },
            AppError::Forbidden => ErrorReply {
                status: 403,
                code: "FORBIDDEN",
                message: String::from_str("Access denied"),
            },
            AppError::Unprocessable(m) => ErrorReply {
                status: 422,
                code: "UNPROCESSABLE",
                message: m.clone(),
            },
            AppError::Internal(_) => ErrorReply {
                status: 500,
                code: "INTERNAL_SERVER_ERROR",
                message: String::from_str("An internal server error occurred"),
            },
        }
    }
}

impl From<anyhow::Error> for AppError {
    fn from(err: anyhow::Error) -> (e: AppError) {
        AppError::Internal(err)
    }
}

impl vstd::std_specs::convert::FromSpecImpl<anyhow::Error> for AppError {
    open spec fn obeys_from_spec() -> bool {
        true
    }

    open spec fn from_spec(v: anyhow::Error) -> AppError {
        AppError::Internal(v)
    }
}

/// The database error type of the persistence layer.
#[verifier::external_type_specification]
#[verifier::external_body]
pub struct ExSqlxError(sqlx::Error);

/// Calls `anyhow::Error::from` on a `sqlx::Error` (anyhow's blanket
/// `From<E: std::error::Error + Send + Sync + 'static>`). The wrapped error
/// also records a backtrace that depends on the environment, so nothing is
/// stated of the value that comes back.
#[verifier::external_body]
fn anyhow_from_sqlx(err: sqlx::Error) -> anyhow::Error {
    anyhow::Error::from(err)
}

impl From<sqlx::Error> for AppError {
    fn from(err: sqlx::Error) -> (e: AppError)
        ensures
            e is Internal,
    {
        AppError::Internal(anyhow_from_sqlx(err))
    }
}

impl vstd::std_specs::convert::FromSpecImpl<sqlx::Error> for AppError {
    /// The wrapped value is not determined by the database error alone
    /// (see `anyhow_from_sqlx`), so no exact result is promised.
    open spec fn obeys_from_spec() -> bool {
        false
    }

    open spec fn from_spec(v: sqlx::Error) -> AppError {
        vstd::pervasive::arbitrary()
    }
}

} // verus!
