use warp_rpc::ServiceError;
use warp_rpc::Status;
use warp_rpc::TransportFailure;

#[test]
fn corrupting_failure_is_data_corruption_whatever_code_it_carries() {
    let e = ServiceError::adapt_transport(TransportFailure {
        corrupting: true,
        code: Some(404),
        description: "invalid JSON at byte 12".to_string(),
    });
    assert_eq!(e.status, Status::DataCorruption);
    assert_eq!(e.message, Some("reqwest http client error".to_string()));
    assert_eq!(e.cause, Some("invalid JSON at byte 12".to_string()));
}

#[test]
fn carried_code_classifies_a_plain_failure() {
    let e = ServiceError::adapt_transport(TransportFailure {
        corrupting: false,
        code: Some(429),
        description: "throttled".to_string(),
    });
    assert_eq!(e.status, Status::TooManyRequests);
    assert_eq!(e.message, Some("reqwest http client error".to_string()));
    assert_eq!(e.cause, Some("throttled".to_string()));
}

#[test]
fn codeless_failure_is_not_specified() {
    let e = ServiceError::adapt_transport(TransportFailure {
        corrupting: false,
        code: None,
        description: "connection refused".to_string(),
    });
    assert_eq!(e.status, Status::NotSpecified);
    assert_eq!(e.cause, Some("connection refused".to_string()));
}

#[test]
fn unrecognized_carried_code_is_not_specified() {
    let e = ServiceError::adapt_transport(TransportFailure {
        corrupting: false,
        code: Some(418),
        description: "odd".to_string(),
    });
    assert_eq!(e.status, Status::NotSpecified);
}

#[test]
fn new_error_has_no_free_text() {
    let e = ServiceError::new(Status::Forbidden);
    assert_eq!(e.status, Status::Forbidden);
    assert_eq!(e.message, None);
    assert_eq!(e.cause, None);
    assert_eq!(e.wire_code(), 403);
}

#[test]
fn render_shows_phrase_message_and_cause() {
    let e = ServiceError {
        status: Status::NotFound,
        message: Some("image 17 is gone".to_string()),
        cause: Some("say \"why\"".to_string()),
    };
    assert_eq!(
        e.render(),
        "ServiceError status=\"Not Found\" message=\"image 17 is gone\" cause=\"say \\\"why\\\"\""
    );
}

#[test]
fn render_of_a_bare_error_is_just_the_phrase() {
    let e = ServiceError::new(Status::ServiceUnavailable);
    assert_eq!(e.render(), "ServiceError status=\"Service Unavailable\"");
}

#[test]
fn errors_compare_by_fields() {
    let a = ServiceError {
        status: Status::NotFound,
        message: Some("x".to_string()),
        cause: None,
    };
    let b = ServiceError {
        status: Status::NotFound,
        message: Some("x".to_string()),
        cause: None,
    };
    let c = ServiceError {
        status: Status::NotFound,
        message: Some("y".to_string()),
        cause: None,
    };
    assert_eq!(a, b);
    assert_ne!(a, c);
}
