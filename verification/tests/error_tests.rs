use backend::errors::{
    bad_request, handle_invalid_request_body, handle_method_not_allowed, internal_server_error,
    not_found, ApiError,
};

#[test]
fn messages_and_statuses() {
    let cases: Vec<(ApiError, &str, u16)> = vec![
        (ApiError::DatabaseError("boom".to_string()), "Database error: boom", 500),
        (ApiError::MissingEnvVar("GITHUB_TOKEN".to_string()), "Missing environment variable: GITHUB_TOKEN", 400),
        (ApiError::GitHubRequestError("timeout".to_string()), "GitHub request error: timeout", 502),
        (ApiError::GitHubApiError("bad".to_string()), "GitHub API error: bad", 502),
        (ApiError::InternalServerError, "Internal server error", 500),
        (ApiError::InvalidRequestBody, "Invalid request body", 400),
        (ApiError::NotFound, "Not Found", 404),
        (ApiError::Unauthorized, "Unauthorized access", 401),
    ];
    for (e, message, status) in cases {
        assert_eq!(e.message(), message);
        assert_eq!(e.status_code(), status);
        let reply = e.respond_to();
        assert_eq!(reply.status, status);
        assert_eq!(reply.body.error, message);
    }
}

#[test]
fn reply_body_is_the_whole_error_object() {
    // The reply carries {"error": message}; serialized, its length is that of
    // the whole object, not of the message alone.
    let reply = ApiError::NotFound.respond_to();
    let mut body = serde_json::Map::new();
    body.insert("error".to_string(), serde_json::Value::String(reply.body.error.clone()));
    let text = serde_json::Value::Object(body).to_string();
    assert_eq!(text, "{\"error\":\"Not Found\"}");
    assert_eq!(text.len(), 21);
    let bad = bad_request("No part IDs provided");
    assert_eq!((bad.status, bad.body.error.as_str()), (400, "No part IDs provided"));
}

#[test]
fn catcher_bodies() {
    assert_eq!(not_found().error, "Not Found");
    assert_eq!(handle_invalid_request_body().error, "Invalid request body");
    assert_eq!(handle_method_not_allowed().error, "Method Not Allowed");
    assert_eq!(internal_server_error().error, "Internal Server Error");
}

#[test]
fn test_report_bug_invalid_payload() {
    // A bug report without a description is not a valid request body: the
    // reply is 400 with error "Invalid request body".
    let body = handle_invalid_request_body();
    assert_eq!(body.error, "Invalid request body");
    let reply = ApiError::InvalidRequestBody.respond_to();
    assert_eq!(reply.status, 400);
    assert_eq!(reply.body.error, "Invalid request body");
}
