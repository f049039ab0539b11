use warp_rpc::dispatch::health_reply;
use warp_rpc::dispatch::interpret_response;
use warp_rpc::dispatch::reply_for;
use warp_rpc::json::encode_service_error;
use warp_rpc::ServiceError;
use warp_rpc::Status;

#[test]
fn ok_outcome_replies_200_with_the_body() {
    let reply = reply_for(Ok("{\"url\":\"a/b.png\"}".to_string()));
    assert_eq!(reply.code, 200);
    assert_eq!(reply.body, "{\"url\":\"a/b.png\"}");
}

#[test]
fn err_outcome_replies_with_the_status_code_and_encoded_error() {
    let e = ServiceError {
        status: Status::NotFound,
        message: Some("no such image".to_string()),
        cause: None,
    };
    let reply = reply_for(Err(e.clone()));
    assert_eq!(reply.code, 404);
    assert_eq!(reply.body, encode_service_error(&e));
}

#[test]
fn health_reply_is_200_healthy() {
    let reply = health_reply();
    assert_eq!(reply.code, 200);
    assert_eq!(reply.body, "Healthy");
}

#[test]
fn success_reply_interprets_as_the_body() {
    let out = interpret_response(200, "{\"frames\":7}".to_string());
    assert_eq!(out, Ok("{\"frames\":7}".to_string()));
}

#[test]
fn error_reply_interprets_as_the_sent_error() {
    let e = ServiceError {
        status: Status::VersionConflict,
        message: Some("stale".to_string()),
        cause: Some("etag".to_string()),
    };
    let out = interpret_response(409, encode_service_error(&e));
    assert_eq!(out, Err(e));
}

#[test]
fn undecodable_error_body_becomes_data_corruption() {
    let out = interpret_response(500, "<html>oops</html>".to_string());
    let e = out.unwrap_err();
    assert_eq!(e.status, Status::DataCorruption);
    assert_eq!(e.message, Some("reqwest http client error".to_string()));
    assert_eq!(e.cause, Some("<html>oops</html>".to_string()));
}

// A server whose get_image implementation reports NotFound: the client's
// get_image call gets that error back with message and cause untouched.
#[test]
fn not_found_error_crosses_the_wire_untouched() {
    let implementation_outcome: Result<String, ServiceError> = Err(ServiceError {
        status: Status::NotFound,
        message: Some("image 17 is gone".to_string()),
        cause: Some("pruned by retention".to_string()),
    });
    let reply = reply_for(implementation_outcome.clone());
    assert_eq!(reply.code, 404);
    let client_outcome = interpret_response(reply.code, reply.body);
    assert_eq!(client_outcome, implementation_outcome);
}

// A server whose get_video implementation returns a response value: the
// client's get_video call gets that exact value, with wire status 200.
#[test]
fn response_value_crosses_the_wire_verbatim() {
    let implementation_outcome: Result<String, ServiceError> =
        Ok("{\"codec\":\"av1\",\"frames\":1440}".to_string());
    let reply = reply_for(implementation_outcome.clone());
    assert_eq!(reply.code, 200);
    let client_outcome = interpret_response(reply.code, reply.body);
    assert_eq!(client_outcome, implementation_outcome);
}

#[test]
fn every_status_crosses_the_wire_untouched() {
    let statuses = vec![
        Status::BadRequest,
        Status::Unauthorized,
        Status::Forbidden,
        Status::NotFound,
        Status::MethodNotAllowed,
        Status::VersionConflict,
        Status::RequestTooLarge,
        Status::TooManyRequests,
        Status::DataCorruption,
        Status::ServerError,
        Status::NotImplemented,
        Status::ServiceUnavailable,
        Status::NotSpecified,
    ];
    for st in statuses {
        let outcome: Result<String, ServiceError> = Err(ServiceError {
            status: st,
            message: Some("m".to_string()),
            cause: Some("c".to_string()),
        });
        let reply = reply_for(outcome.clone());
        assert_eq!(interpret_response(reply.code, reply.body), outcome);
    }
}
