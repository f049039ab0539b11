//! What crosses the wire in each direction: the reply a method route
//! sends for an implementation outcome, and the outcome a client reads
//! back from a reply.
use vstd::prelude::*;
use vstd::string::StringExecFns;

use crate::error::adaptation_message;
use crate::error::ErrView;
use crate::error::ServiceError;
use crate::json::decode_service_error;
use crate::json::decode_spec;
use crate::json::encode_service_error;
use crate::json::encode_spec;
use crate::json::lemma_decode_encode;
use crate::status::code_of;
use crate::status::Status;

verus! {

/// One wire reply: a numeric status code and a body.
pub struct Reply {
    pub code: u16,
    pub body: String,
}

/// An implementation outcome as the contracts see it: a response body,
/// or an error.
pub open spec fn outcome_view(r: Result<String, ServiceError>) -> Result<Seq<char>, ErrView> {
    match r {
        Ok(b) => Ok(b@),
        Err(e) => Err(e@),
    }
}

/// The reply a method route sends: a response goes out verbatim with
/// code 200; an error goes out encoded, under the code its status maps
/// to.
pub open spec fn reply_spec(res: Result<Seq<char>, ErrView>) -> (u16, Seq<char>) {
    match res {
        Ok(b) => (200u16, b),
        Err(e) => (code_of(e.status), encode_spec(e)),
    }
}

/// Whether a numeric code counts as success on the wire.
pub open spec fn success_code(code: u16) -> bool {
    200 <= code < 300
}

/// The outcome a client reads from a reply: a success body comes back
/// verbatim; any other reply is read as an encoded error, and a body
/// that is no encoded error is adapted as data corruption, with the
/// body kept as the cause.
pub open spec fn interpret_spec(code: u16, body: Seq<char>) -> Result<Seq<char>, ErrView> {
    if success_code(code) {
        Ok(body)
    } else {
        match decode_spec(body) {
            Some(e) => Err(e),
            None => Err(
                ErrView {
                    status: Status::DataCorruption,
                    message: Some(adaptation_message()),
                    cause: Some(body),
                },
            ),
        }
    }
}

/// Build the reply for an implementation outcome. Every outcome gets a
/// reply: a method route never fails to answer.
pub fn reply_for(res: Result<String, ServiceError>) -> (r: Reply)
    ensures
        (r.code, r.body@) == reply_spec(outcome_view(res)),
{
    match res {
        Ok(b) => Reply { code: 200, body: b },
        Err(e) => {
            let code = e.status.as_code();
            let body = encode_service_error(&e);
            Reply { code, body }
        },
    }
}

/// The fixed reply of the health route, independent of any
/// implementation state.
pub fn health_reply() -> (r: Reply)
    ensures
        r.code == 200,
        r.body@ == "Healthy"@,
{
    Reply { code: 200, body: String::from_str("Healthy") }
}

/// Read a reply on the client side.
pub fn interpret_response(code: u16, body: String) -> (r: Result<String, ServiceError>)
    ensures
        outcome_view(r) == interpret_spec(code, body@),
{
    if 200 <= code && code < 300 {
        Ok(body)
    } else {
        match decode_service_error(body.as_str()) {
            Some(e) => Err(e),
            None => Err(
                ServiceError {
                    status: Status::DataCorruption,
                    message: Some(String::from_str("reqwest http client error")),
                    cause: Some(body),
                },
            ),
        }
    }
}

/// An implementation outcome crosses the wire untouched: the reply a
/// method route sends for it reads back on the client as exactly that
/// outcome. An error keeps its status, message and cause; a response
/// body comes back verbatim under code 200.
pub proof fn lemma_wire_round_trip(res: Result<Seq<char>, ErrView>)
    ensures
        interpret_spec(reply_spec(res).0, reply_spec(res).1) == res,
{
    match res {
        Ok(_) => {
        },
        Err(e) => {
            assert(!success_code(code_of(e.status)));
            lemma_decode_encode(e);
        },
    }
}

} // verus!
