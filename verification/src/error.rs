//! The structured error that crosses the wire: a symbolic status plus an
//! optional message and an optional free-text cause.
use vstd::prelude::*;

use crate::json::escape;
use crate::json::push_escaped;
use crate::json::to_chars;
use crate::status::{code_of, phrase_of, status_of, Status};
use vstd::string::StringExecFns;

verus! {

/// Mathematical view of a `ServiceError`: the status plus the character
/// sequences of the optional fields.
pub ghost struct ErrView {
    pub status: Status,
    pub message: Option<Seq<char>>,
    pub cause: Option<Seq<char>>,
}

/// The single error type crossing the wire. The status is always
/// present; message and cause are free text and may both be absent.
#[derive(Clone, Debug)]
pub struct ServiceError {
    pub status: Status,
    pub message: Option<String>,
    pub cause: Option<String>,
}

pub open spec fn view_opt_string(o: Option<String>) -> Option<Seq<char>> {
    match o {
        Some(s) => Some(s@),
        None => None,
    }
}

impl View for ServiceError {
    type V = ErrView;

    open spec fn view(&self) -> ErrView {
        ErrView {
            status: self.status,
            message: view_opt_string(self.message),
            cause: view_opt_string(self.cause),
        }
    }
}

/// Field-wise equality of the optional free-text parts.
fn opt_string_eq(a: &Option<String>, b: &Option<String>) -> (r: bool)
    ensures
        r == (view_opt_string(*a) == view_opt_string(*b)),
{
    match (a, b) {
        (None, None) => true,
        (Some(x), Some(y)) => *x == *y,
        _ => false,
    }
}

impl PartialEq for ServiceError {
    fn eq(&self, other: &Self) -> (r: bool) {
        self.status == other.status && opt_string_eq(&self.message, &other.message)
            && opt_string_eq(&self.cause, &other.cause)
    }
}

impl vstd::std_specs::cmp::PartialEqSpecImpl for ServiceError {
    open spec fn obeys_eq_spec() -> bool {
        true
    }

    open spec fn eq_spec(&self, other: &Self) -> bool {
        self@ == other@
    }
}

impl Eq for ServiceError {}

/// What the client learned about a failed exchange, as plain values: a
/// transport failure is adapted to a `ServiceError` from these alone.
pub struct TransportFailure {
    /// The failure came from response-body decoding, body construction,
    /// or client configuration: the exchanged bytes cannot be trusted.
    pub corrupting: bool,
    /// The numeric status code carried by the failure, if any.
    pub code: Option<u16>,
    /// The failure's own textual description.
    pub description: String,
}

/// The fixed message that marks an error as adapted from the HTTP
/// client's own failure, rather than sent by the server.
pub open spec fn adaptation_message() -> Seq<char> {
    "reqwest http client error"@
}

pub open spec fn render_message_part(m: Option<Seq<char>>) -> Seq<char> {
    match m {
        None => Seq::empty(),
        Some(m) => " message=\""@ + escape(m) + seq!['"'],
    }
}

pub open spec fn render_cause_part(c: Option<Seq<char>>) -> Seq<char> {
    match c {
        None => Seq::empty(),
        Some(c) => " cause=\""@ + escape(c) + seq!['"'],
    }
}

/// The stable textual rendering of an error: the status phrase, then
/// the optional message and cause, quoted.
pub open spec fn render_spec(v: ErrView) -> Seq<char> {
    "ServiceError status=\""@ + phrase_of(v.status) + seq!['"'] + render_message_part(v.message)
        + render_cause_part(v.cause)
}

impl ServiceError {
    /// A new error with the given status and no free-text fields.
    pub fn new(status: Status) -> (r: ServiceError)
        ensures
            r@ == (ErrView { status, message: None, cause: None }),
    {
        ServiceError { status, message: None, cause: None }
    }

    /// The numeric transport code this error is sent with.
    pub fn wire_code(&self) -> (r: u16)
        ensures
            r == code_of(self@.status),
    {
        self.status.as_code()
    }

    /// Adapt a transport-layer failure: a corrupting failure is data
    /// corruption whatever code it carries; otherwise the carried code
    /// decides, and a failure with no code is not specified.
    pub fn adapt_transport(f: TransportFailure) -> (r: ServiceError)
        ensures
            r@.status == (if f.corrupting {
                Status::DataCorruption
            } else {
                match f.code {
                    Some(c) => status_of(c),
                    None => Status::NotSpecified,
                }
            }),
            r@.message == Some(adaptation_message()),
            r@.cause == Some(f.description@),
    {
        let status = if f.corrupting {
            Status::DataCorruption
        } else {
            match f.code {
                Some(c) => Status::from_code(c),
                None => Status::NotSpecified,
            }
        };
        ServiceError {
            status,
            message: Some(String::from_str("reqwest http client error")),
            cause: Some(f.description),
        }
    }

    /// The stable textual rendering, for logging: diagnostic only,
    /// never parsed back.
    pub fn render(&self) -> (r: String)
        ensures
            r@ == render_spec(self@),
    {
        let mut out = String::from_str("ServiceError status=\"");
        out.append(self.status.message());
        out.push('"');
        proof {
            assert(out@ =~= "ServiceError status=\""@ + phrase_of(self@.status) + seq!['"']);
        }
        let ghost head = out@;
        match &self.message {
            Some(m) => {
                out.append(" message=\"");
                let v = to_chars(m.as_str());
                push_escaped(&mut out, &v, 0);
                out.push('"');
                proof {
                    assert(v@.skip(0) =~= v@);
                    assert(out@ =~= head + render_message_part(self@.message));
                }
            },
            None => {
                proof {
                    assert(out@ =~= head + render_message_part(self@.message));
                }
            },
        }
        let ghost head2 = out@;
        match &self.cause {
            Some(c) => {
                out.append(" cause=\"");
                let v = to_chars(c.as_str());
                push_escaped(&mut out, &v, 0);
                out.push('"');
                proof {
                    assert(v@.skip(0) =~= v@);
                    assert(out@ =~= head2 + render_cause_part(self@.cause));
                }
            },
            None => {
                proof {
                    assert(out@ =~= head2 + render_cause_part(self@.cause));
                }
            },
        }
        proof {
            assert(out@ =~= render_spec(self@));
        }
        out
    }
}

} // verus!
