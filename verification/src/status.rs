//! The closed set of symbolic outcomes carried by a `ServiceError`, with
//! its fixed mapping to and from numeric transport status codes.
use vstd::prelude::*;

verus! {

/// Symbolic outcome of a service call, independent of any numeric
/// transport code.
#[derive(Clone, Copy, Debug, PartialEq, Eq, Structural)]
pub enum Status {
    BadRequest,
    Unauthorized,
    Forbidden,
    NotFound,
    MethodNotAllowed,
    VersionConflict,
    RequestTooLarge,
    TooManyRequests,
    DataCorruption,
    ServerError,
    NotImplemented,
    ServiceUnavailable,
    NotSpecified,
}

/// The numeric transport code that a symbolic status is sent with.
/// Non-injective: `DataCorruption`, `ServerError` and `NotSpecified`
/// all map to 500.
pub open spec fn code_of(s: Status) -> u16 {
    match s {
        Status::BadRequest => 400,
        Status::Unauthorized => 401,
        Status::Forbidden => 403,
        Status::NotFound => 404,
        Status::MethodNotAllowed => 405,
        Status::VersionConflict => 409,
        Status::RequestTooLarge => 413,
        Status::TooManyRequests => 429,
        Status::DataCorruption => 500,
        Status::ServerError => 500,
        Status::NotImplemented => 501,
        Status::ServiceUnavailable => 503,
        Status::NotSpecified => 500,
    }
}

/// The canonical symbolic status for an inbound numeric code; every
/// code outside the fixed table collapses to `NotSpecified`.
pub open spec fn status_of(code: u16) -> Status {
    if code == 400 {
        Status::BadRequest
    } else if code == 401 {
        Status::Unauthorized
    } else if code == 403 {
        Status::Forbidden
    } else if code == 404 {
        Status::NotFound
    } else if code == 405 {
        Status::MethodNotAllowed
    } else if code == 409 {
        Status::VersionConflict
    } else if code == 413 {
        Status::RequestTooLarge
    } else if code == 429 {
        Status::TooManyRequests
    } else if code == 500 {
        Status::ServerError
    } else if code == 501 {
        Status::NotImplemented
    } else if code == 503 {
        Status::ServiceUnavailable
    } else {
        Status::NotSpecified
    }
}

/// A code is recognized when the fixed table lists it.
pub open spec fn recognized(code: u16) -> bool {
    status_of(code) != Status::NotSpecified
}

/// The fixed human-readable phrase of a status.
pub open spec fn phrase_of(s: Status) -> Seq<char> {
    match s {
        Status::BadRequest => "Bad Request"@,
        Status::Unauthorized => "Unauthorized"@,
        Status::Forbidden => "Forbidden"@,
        Status::NotFound => "Not Found"@,
        Status::MethodNotAllowed => "Method Not Allowed"@,
        Status::VersionConflict => "Version Conflict"@,
        Status::RequestTooLarge => "Request Too Large"@,
        Status::TooManyRequests => "Too Many Requests"@,
        Status::DataCorruption => "Data Corruption"@,
        Status::ServerError => "Server Error"@,
        Status::NotImplemented => "Not Implemented"@,
        Status::ServiceUnavailable => "Service Unavailable"@,
        Status::NotSpecified => "Not Specified"@,
    }
}

impl From<u16> for Status {
    /// The canonical symbolic status for an inbound numeric code.
    fn from(code: u16) -> (r: Status) {
        Status::from_code(code)
    }
}

impl vstd::std_specs::convert::FromSpecImpl<u16> for Status {
    open spec fn obeys_from_spec() -> bool {
        true
    }

    open spec fn from_spec(code: u16) -> Status {
        status_of(code)
    }
}

impl Status {
    /// The canonical symbolic status for an inbound numeric code.
    pub fn from_code(code: u16) -> (r: Status)
        ensures
            r == status_of(code),
    {
        match code {
            400 => Status::BadRequest,
            401 => Status::Unauthorized,
            403 => Status::Forbidden,
            404 => Status::NotFound,
            405 => Status::MethodNotAllowed,
            409 => Status::VersionConflict,
            413 => Status::RequestTooLarge,
            429 => Status::TooManyRequests,
            500 => Status::ServerError,
            501 => Status::NotImplemented,
            503 => Status::ServiceUnavailable,
            _ => Status::NotSpecified,
        }
    }

    /// The numeric transport code this status is sent with.
    pub fn as_code(&self) -> (r: u16)
        ensures
            r == code_of(*self),
    {
        match self {
            Status::BadRequest => 400,
            Status::Unauthorized => 401,
            Status::Forbidden => 403,
            Status::NotFound => 404,
            Status::MethodNotAllowed => 405,
            Status::VersionConflict => 409,
            Status::RequestTooLarge => 413,
            Status::TooManyRequests => 429,
            Status::DataCorruption => 500,
            Status::ServerError => 500,
            Status::NotImplemented => 501,
            Status::ServiceUnavailable => 503,
            Status::NotSpecified => 500,
        }
    }

    /// The fixed human-readable phrase of this status.
    pub fn message(&self) -> (r: &'static str)
        ensures
            r@ == phrase_of(*self),
    {
        match self {
            Status::BadRequest => "Bad Request",
            Status::Unauthorized => "Unauthorized",
            Status::Forbidden => "Forbidden",
            Status::NotFound => "Not Found",
            Status::MethodNotAllowed => "Method Not Allowed",
            Status::VersionConflict => "Version Conflict",
            Status::RequestTooLarge => "Request Too Large",
            Status::TooManyRequests => "Too Many Requests",
            Status::DataCorruption => "Data Corruption",
            Status::ServerError => "Server Error",
            Status::NotImplemented => "Not Implemented",
            Status::ServiceUnavailable => "Service Unavailable",
            Status::NotSpecified => "Not Specified",
        }
    }
}

/// Converting a recognized code to its symbolic status and back yields
/// the original code.
pub proof fn lemma_recognized_code_round_trip(code: u16)
    requires
        recognized(code),
    ensures
        code_of(status_of(code)) == code,
{
}

/// An unrecognized code collapses to `NotSpecified`, which is sent back
/// out as 500.
pub proof fn lemma_unrecognized_code(code: u16)
    requires
        !recognized(code),
    ensures
        status_of(code) == Status::NotSpecified,
        code_of(status_of(code)) == 500,
{
}

/// `DataCorruption` is sent as 500, but an inbound 500 reads back as
/// `ServerError`: the corruption status is only reachable from
/// application logic, never from a numeric code.
pub proof fn lemma_corruption_code_asymmetry()
    ensures
        code_of(Status::DataCorruption) == 500,
        status_of(500) == Status::ServerError,
        status_of(500) != Status::DataCorruption,
{
}

} // verus!
