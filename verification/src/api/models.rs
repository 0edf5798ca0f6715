//! The closed set of API error kinds and the uniform response envelope.

use vstd::prelude::*;
use vstd::string::*;

use crate::entity::ohlc_data;

verus! {

/// The closed taxonomy of API response kinds.
///
/// Every outward-facing failure is classified into exactly one of these;
/// each carries a fixed numeric code, a fixed HTTP-equivalent severity and
/// a default human-readable message.
#[derive(Clone, Copy, Debug, PartialEq, Eq, Structural)]
pub enum ApiError {
    Success,
    BadRequest,
    NotFound,
    InternalServerError,
    DatabaseError,
    InvalidDateFormat,
}

impl ApiError {
    /// The fixed numeric code of the kind; 0 marks success.
    pub open spec fn spec_code(self) -> i32 {
        match self {
            ApiError::Success => 0,
            ApiError::BadRequest => 40001,
            ApiError::NotFound => 40401,
            ApiError::InternalServerError => 50001,
            ApiError::DatabaseError => 50002,
            ApiError::InvalidDateFormat => 40002,
        }
    }

    /// The numeric code as the envelope carries it.
    pub fn code(&self) -> (c: i32)
        ensures
            c == self.spec_code(),
    {
        match self {
            ApiError::Success => 0,
            ApiError::BadRequest => 40001,
            ApiError::NotFound => 40401,
            ApiError::InternalServerError => 50001,
            ApiError::DatabaseError => 50002,
            ApiError::InvalidDateFormat => 40002,
        }
    }

    /// The HTTP-equivalent severity of the kind.
    pub open spec fn spec_status_code(self) -> u16 {
        match self {
            ApiError::Success => 200,
            ApiError::BadRequest | ApiError::InvalidDateFormat => 400,
            ApiError::NotFound => 404,
            ApiError::InternalServerError | ApiError::DatabaseError => 500,
        }
    }

    /// The HTTP status the kind maps to: client failures are 4xx, store and
    /// internal failures 5xx.
    pub fn status_code(&self) -> (s: u16)
        ensures
            s == self.spec_status_code(),
    {
        match self {
            ApiError::Success => 200,
            ApiError::BadRequest | ApiError::InvalidDateFormat => 400,
            ApiError::NotFound => 404,
            ApiError::InternalServerError | ApiError::DatabaseError => 500,
        }
    }

    /// The default message of the kind.
    pub open spec fn spec_message(self) -> Seq<char> {
        match self {
            ApiError::Success => "Success"@,
            ApiError::BadRequest => "Bad request"@,
            ApiError::NotFound => "Resource not found"@,
            ApiError::InternalServerError => "Internal server error"@,
            ApiError::DatabaseError => "Database error"@,
            ApiError::InvalidDateFormat => "Invalid date format"@,
        }
    }

    /// The default human-readable message of the kind.
    pub fn message(&self) -> (m: &'static str)
        ensures
            m@ == self.spec_message(),
    {
        match self {
            ApiError::Success => "Success",
            ApiError::BadRequest => "Bad request",
            ApiError::NotFound => "Resource not found",
            ApiError::InternalServerError => "Internal server error",
            ApiError::DatabaseError => "Database error",
            ApiError::InvalidDateFormat => "Invalid date format",
        }
    }
}

/// The uniform envelope around every outward-facing result: a numeric code
/// (0 for success), a message, and the data, present exactly on success.
#[derive(Debug)]
pub struct ApiResponse<T> {
    pub code: i32,
    pub message: String,
    pub data: Option<T>,
}

impl<T> ApiResponse<T> {
    /// A success envelope: code 0, the default success message, the data
    /// present.
    pub fn success(data: T) -> (r: Self)
        ensures
            r.code == 0,
            r.message@ == ApiError::Success.spec_message(),
            r.data == Some(data),
    {
        Self {
            code: ApiError::Success.code(),
            message: String::from_str(ApiError::Success.message()),
            data: Some(data),
        }
    }

    /// An error envelope with the kind's default message; the data is
    /// absent.
    pub fn error(error: ApiError) -> (r: Self)
        ensures
            r.code == error.spec_code(),
            r.message@ == error.spec_message(),
            r.data is None,
    {
        Self {
            code: error.code(),
            message: String::from_str(error.message()),
            data: None,
        }
    }

    /// An error envelope with a caller-supplied message: the classified
    /// kind keeps its code, the message carries the contextual detail, and
    /// the data is absent.
    pub fn error_with_message(error: ApiError, message: String) -> (r: Self)
        ensures
            r.code == error.spec_code(),
            r.message == message,
            r.data is None,
    {
        Self { code: error.code(), message, data: None }
    }
}

/// The raw query parameters of a date-range request, as the caller hands
/// them over: two date-time strings in the format `YYYY-MM-DD HH:MM:SS`.
#[derive(Debug)]
pub struct OhlcDateRangeRequest {
    pub start: String,
    pub end: String,
}

/// The data of an OHLC query response: an array of bar rows.
#[derive(Clone, Debug, PartialEq)]
pub struct OhlcResponse {
    pub data: Vec<ohlc_data::Model>,
}

} // verus!
