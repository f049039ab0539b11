//! Adapting the HTTP client's own failures into `ServiceError`. Only
//! the calls into the HTTP client are taken on trust; the
//! classification itself is `ServiceError::adapt_transport`, verified
//! over plain values.
use vstd::prelude::*;

use crate::error::adaptation_message;
use crate::error::ServiceError;
use crate::error::TransportFailure;

verus! {

/// The HTTP client's error type, carried through opaquely.
#[verifier::external_type_specification]
#[verifier::external_body]
pub struct ExReqwestError(reqwest::Error);

/// The numeric status code type of the HTTP layer, carried through
/// opaquely.
#[verifier::external_type_specification]
#[verifier::external_body]
pub struct ExStatusCode(reqwest::StatusCode);

/// Relies on reqwest::Error::is_builder: whether the failure came from
/// building the client or request. Nothing is assumed of the answer.
pub assume_specification[ reqwest::Error::is_builder ](e: &reqwest::Error) -> bool;

/// Relies on reqwest::Error::is_body: whether the failure relates to
/// the request or response body. Nothing is assumed of the answer.
pub assume_specification[ reqwest::Error::is_body ](e: &reqwest::Error) -> bool;

/// Relies on reqwest::Error::is_decode: whether the failure came from
/// decoding the response body. Nothing is assumed of the answer.
pub assume_specification[ reqwest::Error::is_decode ](e: &reqwest::Error) -> bool;

/// Relies on reqwest::Error::status: the status code of the response
/// the failure was generated from, if any. Nothing is assumed of the
/// answer.
pub assume_specification[ reqwest::Error::status ](e: &reqwest::Error) -> Option<
    reqwest::StatusCode,
>;

/// Relies on http::StatusCode::as_u16, reached through reqwest's
/// re-export: the numeric value of the status code.
pub assume_specification[ reqwest::StatusCode::as_u16 ](s: &reqwest::StatusCode) -> u16;

/// Relies on the Display rendering of reqwest::Error: the failure's own
/// description.
#[verifier::external_body]
fn error_text(e: &reqwest::Error) -> String {
    format!("{}", e)
}

/// Relies on the Debug rendering of reqwest::Error: the failure's
/// diagnostic description, used where it carries no status code.
#[verifier::external_body]
fn error_debug_text(e: &reqwest::Error) -> String {
    format!("{:?}", e)
}

impl ServiceError {
    /// Adapt a failure of the HTTP client: what the failure shows of
    /// itself is read off as plain values and classified by
    /// `adapt_transport`. Whatever the client reports, the result
    /// carries the fixed adaptation message and the failure's own
    /// description as its cause.
    pub fn from_reqwest(e: &reqwest::Error) -> (r: ServiceError)
        ensures
            r@.message == Some(adaptation_message()),
            r@.cause is Some,
    {
        let corrupting = e.is_decode() || e.is_body() || e.is_builder();
        let code: Option<u16> = match e.status() {
            Some(sc) => Some(sc.as_u16()),
            None => None,
        };
        let description = if corrupting || code.is_some() {
            error_text(e)
        } else {
            error_debug_text(e)
        };
        ServiceError::adapt_transport(TransportFailure { corrupting, code, description })
    }
}

} // verus!
