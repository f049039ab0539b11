use warp_rpc::json::decode_service_error;
use warp_rpc::json::encode_service_error;
use warp_rpc::json::status_name_str;
use warp_rpc::ServiceError;
use warp_rpc::Status;

fn err(status: Status, message: Option<&str>, cause: Option<&str>) -> ServiceError {
    ServiceError {
        status,
        message: message.map(|s| s.to_string()),
        cause: cause.map(|s| s.to_string()),
    }
}

#[test]
fn encode_bare_error() {
    let e = err(Status::NotFound, None, None);
    assert_eq!(encode_service_error(&e), "{\"status\":\"NotFound\"}");
}

#[test]
fn encode_with_message() {
    let e = err(Status::BadRequest, Some("missing field"), None);
    assert_eq!(
        encode_service_error(&e),
        "{\"status\":\"BadRequest\",\"message\":\"missing field\"}"
    );
}

#[test]
fn encode_with_cause_only() {
    let e = err(Status::ServerError, None, Some("db down"));
    assert_eq!(
        encode_service_error(&e),
        "{\"status\":\"ServerError\",\"cause\":\"db down\"}"
    );
}

#[test]
fn encode_with_message_and_cause() {
    let e = err(Status::DataCorruption, Some("bad body"), Some("eof"));
    assert_eq!(
        encode_service_error(&e),
        "{\"status\":\"DataCorruption\",\"message\":\"bad body\",\"cause\":\"eof\"}"
    );
}

#[test]
fn encode_escapes_quotes_and_backslashes() {
    let e = err(Status::NotFound, Some("a \"quoted\" name"), Some("path\\to\\file"));
    assert_eq!(
        encode_service_error(&e),
        "{\"status\":\"NotFound\",\"message\":\"a \\\"quoted\\\" name\",\"cause\":\"path\\\\to\\\\file\"}"
    );
}

#[test]
fn encode_escapes_control_characters() {
    let e = err(Status::ServerError, Some("line one\nline two"), Some("tab\there\u{1f}end"));
    assert_eq!(
        encode_service_error(&e),
        "{\"status\":\"ServerError\",\"message\":\"line one\\u000aline two\",\"cause\":\"tab\\u0009here\\u001fend\"}"
    );
    assert_eq!(decode_service_error(&encode_service_error(&e)), Some(e));
}

#[test]
fn control_characters_survive_a_standard_parser() {
    let e = err(Status::ServerError, Some("line one\nline two"), None);
    let wire = encode_service_error(&e);
    let value: serde_json::Value = serde_json::from_str(&wire).unwrap();
    assert_eq!(
        value["message"],
        serde_json::Value::String("line one\nline two".to_string())
    );
}

#[test]
fn decode_reads_back_every_shape() {
    let cases = vec![
        err(Status::NotFound, None, None),
        err(Status::BadRequest, Some("missing field"), None),
        err(Status::ServerError, None, Some("db down")),
        err(Status::DataCorruption, Some("bad body"), Some("eof")),
        err(Status::NotSpecified, Some("a \"quoted\" name"), Some("path\\to\\file")),
        err(Status::TooManyRequests, Some(""), Some("")),
    ];
    for e in cases {
        let wire = encode_service_error(&e);
        assert_eq!(decode_service_error(&wire), Some(e));
    }
}

#[test]
fn decode_rejects_non_errors() {
    assert_eq!(decode_service_error(""), None);
    assert_eq!(decode_service_error("{}"), None);
    assert_eq!(decode_service_error("{\"status\":\"Teapot\"}"), None);
    assert_eq!(decode_service_error("{\"status\":\"NotFound\""), None);
    assert_eq!(decode_service_error("{\"status\":\"NotFound\"} "), None);
    assert_eq!(decode_service_error("plain text"), None);
}

#[test]
fn every_status_name_round_trips() {
    let statuses = vec![
        Status::BadRequest,
        Status::Unauthorized,
        Status::Forbidden,
        Status::NotFound,
        Status::MethodNotAllowed,
        Status::VersionConflict,
        Status::RequestTooLarge,
        Status::TooManyRequests,
        Status::DataCorruption,
        Status::ServerError,
        Status::NotImplemented,
        Status::ServiceUnavailable,
        Status::NotSpecified,
    ];
    for st in statuses {
        let e = err(st, None, None);
        let wire = encode_service_error(&e);
        assert_eq!(wire, format!("{{\"status\":\"{}\"}}", status_name_str(st)));
        assert_eq!(decode_service_error(&wire), Some(e));
    }
}

#[test]
fn encoding_is_json_a_standard_parser_reads() {
    let e = err(Status::NotFound, Some("a \"quoted\" name"), Some("x\\y"));
    let wire = encode_service_error(&e);
    let value: serde_json::Value = serde_json::from_str(&wire).unwrap();
    assert_eq!(value["status"], serde_json::Value::String("NotFound".to_string()));
    assert_eq!(
        value["message"],
        serde_json::Value::String("a \"quoted\" name".to_string())
    );
    assert_eq!(value["cause"], serde_json::Value::String("x\\y".to_string()));
}

#[test]
fn absent_fields_are_absent_on_the_wire() {
    let e = err(Status::NotFound, None, None);
    let wire = encode_service_error(&e);
    let value: serde_json::Value = serde_json::from_str(&wire).unwrap();
    let obj = value.as_object().unwrap();
    assert!(!obj.contains_key("message"));
    assert!(!obj.contains_key("cause"));
}
