use api::error::{ApiError, STATUS_BAD_REQUEST, STATUS_INTERNAL_SERVER_ERROR};

#[test]
fn bad_request_response_carries_the_message() {
    let (status, body) = ApiError::BadRequest("bad range".to_string()).response_parts();
    assert_eq!(status, 400);
    assert_eq!(status, STATUS_BAD_REQUEST);
    assert_eq!(body, "bad range");
}

#[test]
fn internal_response_does_not_leak_the_payload() {
    let (status, body) =
        ApiError::Internal("password=hunter2 host=127.0.0.1".to_string()).response_parts();
    assert_eq!(status, 500);
    assert_eq!(status, STATUS_INTERNAL_SERVER_ERROR);
    assert!(!body.contains("hunter2"));
    assert!(!body.contains("127.0.0.1"));
    assert_eq!(body, "internal error");
}

#[test]
fn the_log_text_names_the_kind_and_the_message() {
    assert_eq!(ApiError::BadRequest("x".to_string()).message(), "Bad request: x");
    assert_eq!(ApiError::Internal("db down".to_string()).message(), "Internal error: db down");
}
