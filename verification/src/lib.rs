//! A minimal RPC abstraction: a structured error taxonomy shared by a
//! generated HTTP/JSON client and server, plus the pure rules both
//! sides are generated from — status mappings, route derivation, the
//! error's wire encoding, and the dispatch decisions.
pub mod dispatch;
pub mod error;
pub mod json;
pub mod route;
pub mod status;
pub mod transport;

pub use error::ErrView;
pub use error::ServiceError;
pub use error::TransportFailure;
pub use route::RouteDecision;
pub use route::ServiceDescriptor;
pub use route::MAX_REQUEST_BODY_BYTES;
pub use status::Status;
