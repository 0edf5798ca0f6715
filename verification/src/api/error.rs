//! Classification of failures into the closed error taxonomy.
//!
//! A failure is tagged at the point where it arises — a date-time string
//! failed to parse, the store reported an error, or something else went
//! wrong — and the tag, not the failure's surface message, decides the
//! classification. Wrapping a failure in further context therefore never
//! changes its kind.

use vstd::prelude::*;

use crate::api::models::{ApiError, ApiResponse};

verus! {

/// Where a failure arose: the tag that drives classification.
#[derive(Clone, Copy, Debug, PartialEq, Eq, Structural)]
pub enum FailureCause {
    /// A date-time string failed to parse.
    DateParse,
    /// The underlying store reported a failure.
    Store,
    /// Any other failure.
    Other,
}

/// A failure on its way out to the caller: the cause tag together with a
/// human-readable annotation of what was attempted.
#[derive(Clone, Debug, PartialEq)]
pub struct ApiErrorWrapper {
    pub cause: FailureCause,
    pub detail: String,
}

impl ApiErrorWrapper {
    /// The error kind a cause classifies to.
    pub open spec fn spec_classify(self) -> ApiError {
        match self.cause {
            FailureCause::DateParse => ApiError::InvalidDateFormat,
            FailureCause::Store => ApiError::DatabaseError,
            FailureCause::Other => ApiError::InternalServerError,
        }
    }

    /// Wraps a failure for the caller.
    pub fn new(cause: FailureCause, detail: String) -> (r: Self)
        ensures
            r.cause == cause,
            r.detail == detail,
    {
        Self { cause, detail }
    }

    /// Classifies the failure into the closed taxonomy: a parse failure is
    /// an invalid date format, a store failure a database error, and
    /// everything else an internal server error. Only the cause tag is
    /// inspected, so added context never defeats classification.
    pub fn classify(&self) -> (e: ApiError)
        ensures
            e == self.spec_classify(),
    {
        match self.cause {
            FailureCause::DateParse => ApiError::InvalidDateFormat,
            FailureCause::Store => ApiError::DatabaseError,
            FailureCause::Other => ApiError::InternalServerError,
        }
    }

    /// The HTTP-equivalent severity of the classified failure.
    pub fn status_code(&self) -> (s: u16)
        ensures
            s == self.spec_classify().spec_status_code(),
    {
        self.classify().status_code()
    }

    /// The envelope a classified failure renders to: the classified kind's
    /// code, the failure's own detail as the message, and no data.
    pub fn into_envelope<T>(self) -> (r: ApiResponse<T>)
        ensures
            r.code == self.spec_classify().spec_code(),
            r.message == self.detail,
            r.data is None,
    {
        let kind = self.classify();
        ApiResponse::error_with_message(kind, self.detail)
    }
}

} // verus!
