use warp_rpc::Status;

#[test]
fn recognized_codes_round_trip() {
    let codes: Vec<u16> = vec![400, 401, 403, 404, 405, 409, 413, 429, 500, 501, 503];
    for code in codes {
        let status = Status::from_code(code);
        assert_ne!(status, Status::NotSpecified);
        assert_eq!(status.as_code(), code);
    }
}

#[test]
fn code_table_is_the_fixed_one() {
    assert_eq!(Status::from_code(400), Status::BadRequest);
    assert_eq!(Status::from_code(401), Status::Unauthorized);
    assert_eq!(Status::from_code(403), Status::Forbidden);
    assert_eq!(Status::from_code(404), Status::NotFound);
    assert_eq!(Status::from_code(405), Status::MethodNotAllowed);
    assert_eq!(Status::from_code(409), Status::VersionConflict);
    assert_eq!(Status::from_code(413), Status::RequestTooLarge);
    assert_eq!(Status::from_code(429), Status::TooManyRequests);
    assert_eq!(Status::from_code(500), Status::ServerError);
    assert_eq!(Status::from_code(501), Status::NotImplemented);
    assert_eq!(Status::from_code(503), Status::ServiceUnavailable);
}

#[test]
fn unrecognized_code_collapses_to_not_specified() {
    assert_eq!(Status::from_code(418), Status::NotSpecified);
    assert_eq!(Status::from_code(418).as_code(), 500);
    assert_eq!(Status::from_code(0), Status::NotSpecified);
    assert_eq!(Status::from_code(200), Status::NotSpecified);
    assert_eq!(Status::from_code(502), Status::NotSpecified);
    assert_eq!(Status::from_code(u16::MAX), Status::NotSpecified);
}

#[test]
fn data_corruption_asymmetry_is_preserved() {
    assert_eq!(Status::DataCorruption.as_code(), 500);
    assert_eq!(Status::from_code(500), Status::ServerError);
    assert_ne!(Status::from_code(500), Status::DataCorruption);
}

#[test]
fn not_specified_sent_as_500() {
    assert_eq!(Status::NotSpecified.as_code(), 500);
}

#[test]
fn status_phrases() {
    assert_eq!(Status::BadRequest.message(), "Bad Request");
    assert_eq!(Status::NotFound.message(), "Not Found");
    assert_eq!(Status::MethodNotAllowed.message(), "Method Not Allowed");
    assert_eq!(Status::DataCorruption.message(), "Data Corruption");
    assert_eq!(Status::NotSpecified.message(), "Not Specified");
    assert_eq!(Status::ServiceUnavailable.message(), "Service Unavailable");
}
