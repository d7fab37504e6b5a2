use mcp_proxy::cli::{parse_header_map, resolve_sse_url};
use mcp_proxy::connection::{
    backoff_seconds, check_stream_status, choose_transport, forward_result, heartbeat_due,
    send_heartbeat_if_needed, InitialConnection, Polled, PostOutcome, ReconnectFailureReason,
    RetryStep, TransportKind, PROBE_BODY,
};
use mcp_proxy::endpoint::{endpoint_url, resolve_endpoint};
use mcp_proxy::models::AppState;
use std::time::Instant;

#[test]
fn backoff_doubles_and_stays() {
    let waits: Vec<u64> = (0..6).map(backoff_seconds).collect();
    assert_eq!(waits, vec![1, 2, 4, 8, 8, 8]);
}

#[test]
fn backoff_does_not_overflow() {
    assert_eq!(backoff_seconds(64), 8);
    assert_eq!(backoff_seconds(u32::MAX), 8);
    let mut app = AppState::new("http://localhost".to_string(), None);
    app.connect_tries = 65;
    assert_eq!(app.get_backoff_duration(), 8);
    app.connect_tries = 1;
    assert_eq!(app.get_backoff_duration(), 2);
}

#[test]
fn transport_by_status() {
    assert_eq!(choose_transport(405, "405 Method Not Allowed"), Ok(TransportKind::Sse));
    assert_eq!(choose_transport(200, "200 OK"), Ok(TransportKind::Streamable));
    assert_eq!(choose_transport(202, "202 Accepted"), Ok(TransportKind::Streamable));
    assert_eq!(choose_transport(299, "299"), Ok(TransportKind::Streamable));
    assert_eq!(
        choose_transport(404, "404 Not Found"),
        Err("Server returned unexpected status: 404 Not Found".to_string())
    );
    assert!(choose_transport(300, "300").is_err());
    assert!(choose_transport(199, "199").is_err());
}

#[test]
fn the_probe_is_json() {
    let probe: serde_json::Value = serde_json::from_str(PROBE_BODY).unwrap();
    assert_eq!(probe["method"], "initialize");
    assert_eq!(probe["id"], "init");
    assert_eq!(probe["params"]["protocolVersion"], "2025-03-26");
    assert_eq!(probe["params"]["clientInfo"]["version"], "0.1.0");
}

#[test]
fn stream_status() {
    assert_eq!(check_stream_status(200, "200 OK"), Ok(()));
    assert_eq!(
        check_stream_status(503, "503 Service Unavailable"),
        Err("Server returned non-success status: 503 Service Unavailable".to_string())
    );
}

#[test]
fn only_a_timeout_fails_a_forward() {
    assert_eq!(forward_result(PostOutcome::Answered(200), 100), Ok(()));
    assert_eq!(forward_result(PostOutcome::Answered(500), 100), Ok(()));
    assert_eq!(forward_result(PostOutcome::Failed, 100), Ok(()));
    assert_eq!(
        forward_result(PostOutcome::TimedOut, 10_500),
        Err("Request timed out after 10500 ms".to_string())
    );
}

#[test]
fn reconnections() {
    let mut app = AppState::new("http://localhost".to_string(), Some(30));
    app.disconnected_since = Some(Instant::now());
    assert_eq!(app.may_reconnect(30), Ok(()));
    assert_eq!(app.may_reconnect(31), Err(ReconnectFailureReason::TimeoutExceeded));
    assert_eq!(app.try_reconnect(30, None), Ok(()));
    assert_eq!(
        app.try_reconnect(30, Some("refused".to_string())),
        Err(ReconnectFailureReason::ConnectionFailed("refused".to_string()))
    );
    assert_eq!(
        app.try_reconnect(31, Some("refused".to_string())),
        Err(ReconnectFailureReason::TimeoutExceeded)
    );
}

#[test]
fn initial_connection_is_tried_for_five_minutes() {
    let mut connection = InitialConnection::new(5);
    assert_eq!(connection.attempts, 1);
    assert_eq!(connection.attempted(false, 0), RetryStep::Retry(5));
    assert_eq!(connection.attempts, 2);
    assert_eq!(connection.attempted(false, 299), RetryStep::Retry(5));
    assert_eq!(connection.attempts, 3);
    assert_eq!(
        connection.attempted(false, 300),
        RetryStep::GiveUp("Initial connection timed out after 300s".to_string())
    );
    assert_eq!(connection.attempted(true, 300), RetryStep::Connected);
    assert_eq!(connection.attempts, 3);
}

#[test]
fn attempts_are_counted_up_to_the_largest_number() {
    let mut connection = InitialConnection { attempts: u32::MAX, delay: 1 };
    assert_eq!(connection.attempted(false, 1), RetryStep::Retry(1));
    assert_eq!(connection.attempts, u32::MAX);
}

#[test]
fn heartbeats() {
    assert!(!heartbeat_due(5_000_000_000));
    assert!(heartbeat_due(5_000_000_001));
    assert_eq!(send_heartbeat_if_needed(5_000_000_000, Polled::Ended), None);
    assert_eq!(send_heartbeat_if_needed(6_000_000_000, Polled::Message), Some(true));
    assert_eq!(send_heartbeat_if_needed(6_000_000_000, Polled::Pending), Some(true));
    assert_eq!(send_heartbeat_if_needed(6_000_000_000, Polled::Ended), Some(false));
}

#[test]
fn endpoints() {
    let url = "http://localhost:4000/tidewave/mcp";
    assert_eq!(endpoint_url(url, "http://other/messages"), "http://other/messages");
    assert_eq!(endpoint_url(url, "https://other/messages"), "https://other/messages");
    assert_eq!(
        endpoint_url(url, "/tidewave/mcp/message?sessionId=1"),
        "http://localhost:4000/tidewave/mcp/message?sessionId=1"
    );
    assert_eq!(endpoint_url(url, "message"), "http://localhost:4000/tidewave/message");
    assert_eq!(endpoint_url("not a url", "/message"), "not a url/message");
}

#[test]
fn endpoints_that_cannot_be_joined() {
    assert_eq!(resolve_endpoint("base", "/message", None), "base/message");
    assert_eq!(resolve_endpoint("base", "/message", Some("joined".to_string())), "joined");
}

#[test]
fn headers_from_json() {
    let headers = parse_header_map("{\"Authorization\": \"Bearer 1234567890\"}").unwrap().unwrap();
    assert_eq!(headers.len(), 1);
    assert_eq!(headers.get("authorization").unwrap(), "Bearer 1234567890");
    let headers = parse_header_map("{\"X-A\": [\"1\", \"2\"]} and more").unwrap().unwrap();
    assert_eq!(headers.get_all("x-a").iter().count(), 2);
    assert!(parse_header_map("null").unwrap().is_none());
    assert!(parse_header_map("{\"a b\": \"c\"}").is_err());
    assert!(parse_header_map("").unwrap_err().contains("EOF"));
}

#[test]
fn the_url_of_the_server() {
    let some = |s: &str| Some(s.to_string());
    assert_eq!(resolve_sse_url(some("a"), some("b")), Ok("a".to_string()));
    assert_eq!(resolve_sse_url(some("a"), None), Ok("a".to_string()));
    assert_eq!(resolve_sse_url(None, some("b")), Ok("b".to_string()));
    assert_eq!(
        resolve_sse_url(None, None),
        Err("Either the URL must be passed as the first argument or the SSE_URL environment variable must be set".to_string())
    );
}
