//! Tests of Vikunja error decoding and the MCP error mapping.

use vikunja_rust_mcp::error::{truncate, ApiErrorKind, Error, ErrorBody, McpErrorCode, McpErrorData};

/// The decoded `{"code": .., "message": ..}` body, as the server decodes it
/// before building the error: an object with a string `message` and an
/// optional integer `code`.
fn decoded(body: &[u8]) -> Option<ErrorBody> {
    let value: serde_json::Value = serde_json::from_slice(body).ok()?;
    let object = value.as_object()?;
    let message = object.get("message")?.as_str()?.to_string();
    let code = match object.get("code") {
        None | Some(serde_json::Value::Null) => None,
        Some(v) => Some(v.as_i64()?),
    };
    Some(ErrorBody { code, message })
}

fn from_status(endpoint: &'static str, status: u16, body: &[u8]) -> Error {
    Error::from_status(endpoint, status, decoded(body), body)
}

#[test]
fn kind_is_derived_from_status() {
    assert_eq!(ApiErrorKind::from_status(401), ApiErrorKind::Auth);
    assert_eq!(ApiErrorKind::from_status(403), ApiErrorKind::Forbidden);
    assert_eq!(ApiErrorKind::from_status(404), ApiErrorKind::NotFound);
    assert_eq!(ApiErrorKind::from_status(400), ApiErrorKind::Validation);
    assert_eq!(ApiErrorKind::from_status(412), ApiErrorKind::Validation);
    assert_eq!(ApiErrorKind::from_status(422), ApiErrorKind::Validation);
    assert_eq!(ApiErrorKind::from_status(409), ApiErrorKind::Conflict);
    assert_eq!(ApiErrorKind::from_status(429), ApiErrorKind::RateLimited);
    assert_eq!(ApiErrorKind::from_status(500), ApiErrorKind::Server);
    assert_eq!(ApiErrorKind::from_status(503), ApiErrorKind::Server);
    assert_eq!(ApiErrorKind::from_status(418), ApiErrorKind::Other);
}

#[test]
fn vikunja_error_body_is_decoded() {
    let err = from_status("tasks.get", 404, br#"{"code":4002,"message":"The task does not exist."}"#);
    match &err {
        Error::Api { endpoint, status, kind, code, message } => {
            assert_eq!(*endpoint, "tasks.get");
            assert_eq!(*status, 404);
            assert_eq!(*kind, ApiErrorKind::NotFound);
            assert_eq!(*code, Some(4002));
            assert_eq!(message, "The task does not exist.");
        }
        other => panic!("unexpected error: {other:?}"),
    }
}

#[test]
fn non_json_body_falls_back_to_text() {
    let err = from_status("projects.list", 502, b"Bad Gateway");
    match &err {
        Error::Api { message, kind, .. } => {
            assert_eq!(message, "Bad Gateway");
            assert_eq!(*kind, ApiErrorKind::Server);
        }
        other => panic!("unexpected error: {other:?}"),
    }
}

#[test]
fn empty_body_uses_default_message() {
    for (status, expected) in [
        (401u16, "unauthorized"),
        (429, "too many requests"),
        (404, "not found"),
        (403, "forbidden"),
        (418, "request failed"),
    ] {
        match &from_status("projects.list", status, b"") {
            Error::Api { message, .. } => assert_eq!(message, expected),
            other => panic!("unexpected error: {other:?}"),
        }
    }
}

#[test]
fn long_bodies_are_truncated() {
    let body = "x".repeat(1000);
    let err = from_status("tasks.list", 500, body.as_bytes());
    match &err {
        Error::Api { message, .. } => {
            assert!(message.len() <= 303);
            assert!(message.ends_with("..."));
        }
        other => panic!("unexpected error: {other:?}"),
    }
}

#[test]
fn truncate_respects_char_boundaries() {
    let s = "aaaa\u{1F600}bbbb";
    let out = truncate(s, 5);
    assert!(out.starts_with("aaaa"));
    assert!(out.ends_with("..."));
}

#[test]
fn truncate_keeps_short_text_whole() {
    assert_eq!(truncate("short", 300), "short");
    assert_eq!(truncate("abcdef", 3), "abc...");
}

#[test]
fn not_found_and_validation_map_to_invalid_params() {
    for status in [404u16, 400, 412, 422] {
        let mcp = from_status("tasks.get", status, b"{}").to_mcp();
        assert_eq!(mcp.code, McpErrorCode::InvalidParams, "status {status}");
    }
}

#[test]
fn auth_and_server_errors_map_to_internal_error() {
    for status in [401u16, 403, 500, 503] {
        let mcp = from_status("tasks.get", status, b"").to_mcp();
        assert_eq!(mcp.code, McpErrorCode::InternalError, "status {status}");
    }
}

#[test]
fn invalid_argument_maps_to_invalid_params() {
    let mcp = Error::InvalidArgument("task_id must be a positive integer".to_string()).to_mcp();
    assert_eq!(mcp.code, McpErrorCode::InvalidParams);
    assert!(mcp.message.contains("task_id must be a positive integer"));
}

#[test]
fn error_messages_match_their_display_text() {
    let err = Error::Timeout { endpoint: "tasks.get" };
    assert_eq!(err.message(), "timed out calling Vikunja (tasks.get)");
    let err = Error::TooLarge { endpoint: "attachments.download", size: Some(5), limit: 2 };
    assert_eq!(err.message(), "response from Vikunja (attachments.download) exceeds the 2-byte limit");
    let err = from_status("tasks.get", 404, br#"{"code":4002,"message":"gone"}"#);
    assert_eq!(err.message(), "Vikunja API error in tasks.get: HTTP 404 (NotFound): gone");
}

#[test]
fn auth_error_message_mentions_token_env_var() {
    let mcp = from_status("projects.list", 401, b"").to_mcp();
    assert!(mcp.message.contains("VIKUNJA_API_TOKEN"));
    let mcp = from_status("projects.list", 403, b"").to_mcp();
    assert!(mcp.message.contains("scope"));
}

#[test]
fn too_large_maps_to_invalid_params_with_details() {
    let mcp = Error::TooLarge { endpoint: "attachments.download", size: Some(5_000_000), limit: 2_097_152 }
        .to_mcp();
    assert_eq!(mcp.code, McpErrorCode::InvalidParams);
    assert!(mcp.message.contains("2097152"));
    let data = mcp.data.expect("data should be set");
    assert_eq!(
        data,
        McpErrorData::TooLarge {
            endpoint: "attachments.download",
            size: Some(5_000_000),
            limit: 2_097_152,
        }
    );
}

#[test]
fn mcp_error_data_carries_safe_details() {
    let err = from_status("labels.create", 400, br#"{"code":3001,"message":"bad label"}"#);
    let mcp = err.to_mcp();
    let data = mcp.data.expect("data should be set");
    match data {
        McpErrorData::Api { endpoint, http_status, vikunja_error_code, .. } => {
            assert_eq!(endpoint, "labels.create");
            assert_eq!(http_status, 400);
            assert_eq!(vikunja_error_code, Some(3001));
        }
        other => panic!("unexpected {other:?}"),
    }
    assert!(mcp.message.contains("bad label"));
}

#[test]
fn transport_errors_map_to_internal_error() {
    let timeout = Error::Timeout { endpoint: "tasks.list" }.to_mcp();
    assert_eq!(timeout.code, McpErrorCode::InternalError);
    assert!(timeout.message.contains("tasks.list"));
    let network = Error::Network { endpoint: "tasks.list", detail: "connection failed".into() }.to_mcp();
    assert_eq!(network.code, McpErrorCode::InternalError);
    let invalid = Error::InvalidResponse { endpoint: "tasks.list", detail: "expected JSON".into() }.to_mcp();
    assert_eq!(invalid.code, McpErrorCode::InternalError);
    let io = Error::Io { detail: "permission denied".into() }.to_mcp();
    assert_eq!(io.code, McpErrorCode::InternalError);
}

#[test]
fn truncate_keeps_the_longest_prefix_that_fits() {
    assert_eq!(truncate("aaaa\u{1F600}bbbb", 5), "aaaa...");
    assert_eq!(truncate("aaaa\u{1F600}bbbb", 8), "aaaa\u{1F600}...");
    assert_eq!(truncate("\u{e9}\u{e9}\u{e9}", 3), "\u{e9}...");
    assert_eq!(truncate("abc", 3), "abc");
    assert!(truncate("\u{1F600}\u{1F600}", 7).len() <= 7 + 3);
}
