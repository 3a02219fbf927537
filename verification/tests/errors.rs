use missive::error::{JmapErrorKind, MissiveError};

// --- JmapErrorKind messages ---

#[test]
fn display_jmap_error_kind_connection_failed() {
    let kind = JmapErrorKind::ConnectionFailed {
        url: "https://mail.example.com".to_string(),
        message: "connection refused".to_string(),
    };
    assert_eq!(kind.to_string(), "connection to https://mail.example.com failed: connection refused");
}

#[test]
fn display_jmap_error_kind_query_failed() {
    let kind = JmapErrorKind::QueryFailed { method: "Email/get".to_string(), message: "timeout".to_string() };
    assert_eq!(kind.to_string(), "Email/get query failed: timeout");
}

#[test]
fn display_jmap_error_kind_not_found() {
    let kind = JmapErrorKind::NotFound { resource: "Email".to_string(), id: "abc123".to_string() };
    assert_eq!(kind.to_string(), "Email not found: abc123");
}

#[test]
fn display_jmap_error_kind_submission_failed() {
    let kind = JmapErrorKind::SubmissionFailed { message: "rejected".to_string() };
    assert_eq!(kind.to_string(), "email submission failed: rejected");
}

#[test]
fn display_jmap_error_kind_blob_download_failed() {
    let kind = JmapErrorKind::BlobDownloadFailed { blob_id: "blob-1".to_string(), message: "not found".to_string() };
    assert_eq!(kind.to_string(), "blob download failed for blob-1: not found");
}

#[test]
fn display_jmap_error_kind_no_mailbox() {
    let kind = JmapErrorKind::NoMailbox { role: "drafts".to_string() };
    assert_eq!(kind.to_string(), "no drafts mailbox found");
}

#[test]
fn display_jmap_error_kind_no_recipient() {
    assert_eq!(JmapErrorKind::NoRecipient.to_string(), "at least one recipient required");
}

#[test]
fn display_jmap_error_kind_unknown() {
    let kind = JmapErrorKind::Unknown { message: "something went wrong".to_string() };
    assert_eq!(kind.to_string(), "something went wrong");
}

// --- MissiveError messages ---

#[test]
fn display_jmap_error() {
    let error = MissiveError::Jmap(JmapErrorKind::ConnectionFailed {
        url: "https://example.com".to_string(),
        message: "connection refused".to_string(),
    });
    assert_eq!(error.to_string(), "JMAP error: connection to https://example.com failed: connection refused");
}

#[test]
fn display_auth_failed() {
    let error = MissiveError::AuthFailed;
    assert_eq!(error.to_string(), "Authentication failed: invalid credentials");
}

#[test]
fn display_session_required() {
    let error = MissiveError::SessionRequired;
    assert_eq!(error.to_string(), "Session required: please log in");
}

#[test]
fn display_http_response_error() {
    let error = MissiveError::HttpResponse("invalid status code".to_string());
    assert_eq!(error.to_string(), "HTTP response error: invalid status code");
}

// --- HTTP answers ---

#[test]
fn into_response_jmap_returns_bad_gateway() {
    let error = MissiveError::Jmap(JmapErrorKind::Unknown { message: "upstream failure".to_string() });
    let response = error.into_response();
    assert_eq!(response.status, 502);
    assert_eq!(response.body, "<div class=\"error\">upstream failure</div>");
}

#[test]
fn into_response_auth_failed_returns_unauthorized() {
    let error = MissiveError::AuthFailed;
    let response = error.into_response();
    assert_eq!(response.status, 401);
    assert_eq!(response.body, "<div class=\"error\">Invalid credentials</div>");
}

#[test]
fn into_response_session_required_redirects_to_login() {
    let error = MissiveError::SessionRequired;
    let response = error.into_response();
    assert_eq!(response.status, 303);
    assert_eq!(response.location.as_deref(), Some("/login"));
}

#[test]
fn into_response_http_response_returns_internal_server_error() {
    let error = MissiveError::HttpResponse("some error".to_string());
    let response = error.into_response();
    assert_eq!(response.status, 500);
    assert_eq!(response.body, "<div class=\"error\">some error</div>");
}

#[test]
fn jmap_error_kind_clone_and_eq() {
    let kind = JmapErrorKind::NoRecipient;
    let cloned = kind.clone();
    assert_eq!(kind, cloned);
}

#[test]
fn missive_error_clone_and_eq() {
    let err = MissiveError::AuthFailed;
    let cloned = err.clone();
    assert_eq!(err, cloned);
}
