use mcp_proxy::ids::{
    generate_id, generate_ids, narrow_id, widen_id, GeneratedId, WideId,
};
use mcp_proxy::models::{
    AppState, BufferMode, IdError, JSONRPCError, JSONRPCMessage, JSONRPCNotification,
    JSONRPCRequest, JSONRPCResponse, NumberOrString, ProxyState,
};
use mcp_proxy::text::{decimal_text, parse_signed_decimal, signed_decimal_text};
use serde_json::Value;
use std::time::{Duration, Instant};

fn parsed(text: &str) -> Value {
    serde_json::from_str(text).unwrap()
}

fn text_id(text: &str) -> NumberOrString {
    NumberOrString::String(text.into())
}

#[test]
fn decimal_texts() {
    assert_eq!(decimal_text(0), "0");
    assert_eq!(decimal_text(7), "7");
    assert_eq!(decimal_text(10), "10");
    assert_eq!(decimal_text(900_017), "900017");
    assert_eq!(decimal_text(u64::MAX), "18446744073709551615");
}

#[test]
fn identifiers_as_text() {
    assert_eq!(NumberOrString::Number(42).to_string(), "42");
    assert_eq!(text_id("init-1").to_string(), "init-1");
}

#[test]
fn identifiers_as_json() {
    assert_eq!(NumberOrString::Number(42).to_value(), parsed("42"));
    assert_eq!(text_id("42").to_value(), parsed("\"42\""));
}

#[test]
fn identifiers_from_json() {
    assert_eq!(NumberOrString::from_value(&parsed("7")), Ok(NumberOrString::Number(7)));
    assert_eq!(NumberOrString::from_value(&parsed("\"7\"")), Ok(text_id("7")));
    assert_eq!(NumberOrString::from_value(&parsed("-1")), Err(IdError::NotAnInteger));
    assert_eq!(NumberOrString::from_value(&parsed("1.5")), Err(IdError::NotAnInteger));
    assert_eq!(NumberOrString::from_value(&parsed("null")), Err(IdError::NotNumberOrString));
    assert_eq!(NumberOrString::from_value(&parsed("[1]")), Err(IdError::NotNumberOrString));
    assert_eq!(IdError::NotAnInteger.message(), "Expect an integer");
    assert_eq!(IdError::NotNumberOrString.message(), "Expect number or string");
}

#[test]
fn large_identifiers_lose_their_high_bits() {
    assert_eq!(
        NumberOrString::from_value(&parsed("4294967295")),
        Ok(NumberOrString::Number(u32::MAX))
    );
    assert_eq!(NumberOrString::from_value(&parsed("4294967298")), Ok(NumberOrString::Number(2)));
}

#[test]
fn identifiers_are_read_back() {
    for id in [NumberOrString::Number(0), NumberOrString::Number(u32::MAX), text_id(""), text_id("x")] {
        assert_eq!(NumberOrString::from_value(&id.to_value()), Ok(id));
    }
}

#[test]
fn same_identifiers() {
    assert!(text_id("1").same(&text_id("1")));
    assert!(!text_id("1").same(&NumberOrString::Number(1)));
    assert!(!NumberOrString::Number(2).same(&NumberOrString::Number(1)));
}

#[test]
fn generated_identifiers_are_uuids() {
    let mut last = GeneratedId::generate();
    let id = generate_id(&mut last);
    assert_eq!(last.to_text(), id);
    assert_eq!(id.len(), 36);
    for (i, c) in id.chars().enumerate() {
        if i == 8 || i == 13 || i == 18 || i == 23 {
            assert_eq!(c, '-');
        } else {
            assert!(c.is_ascii_digit() || ('a'..='f').contains(&c));
        }
    }
    assert_eq!(id.as_bytes()[14], b'7');
    assert_ne!(generate_id(&mut last), id);
}

#[test]
fn generated_identifiers_are_ordered() {
    let first = GeneratedId::generate();
    let mut second = first.generate_next();
    assert!(first.to_text() < second.to_text());
    let before = second.to_text();
    let ids = generate_ids(&mut second, 200);
    assert_eq!(ids.len(), 200);
    assert!(ids.windows(2).all(|pair| pair[0] < pair[1]));
    assert!(before < ids[0]);
    assert_eq!(second.to_text(), ids[199]);
    assert_eq!(generate_ids(&mut second, 0).len(), 0);
    assert_eq!(second.to_text(), ids[199]);
}

#[test]
fn identifiers_of_a_session() {
    let text = |s: &str| WideId::Text(s.to_string());
    assert_eq!(narrow_id(WideId::Number(7)), NumberOrString::Number(7));
    assert_eq!(narrow_id(WideId::Number(4294967295)), NumberOrString::Number(u32::MAX));
    assert_eq!(narrow_id(WideId::Number(4294967296)), text_id("#4294967296"));
    assert_eq!(narrow_id(WideId::Number(-5)), text_id("#-5"));
    assert_eq!(narrow_id(text("a")), text_id("a"));
    assert_eq!(narrow_id(text("#5")), text_id("##5"));
    assert_eq!(widen_id(&text_id("#x")), text("#x"));
    assert_eq!(widen_id(&text_id("#05")), text("#05"));
    for n in [0, 1, -1, u32::MAX as i64 + 1, i64::MAX, i64::MIN] {
        assert_eq!(widen_id(&narrow_id(WideId::Number(n))), WideId::Number(n));
    }
    for s in ["", "5", "#", "##", "#5", "##-5", "a#"] {
        assert_eq!(widen_id(&narrow_id(text(s))), text(s));
    }
}

#[test]
fn signed_numbers() {
    assert_eq!(signed_decimal_text(i64::MIN), "-9223372036854775808");
    assert_eq!(signed_decimal_text(42), "42");
    assert_eq!(parse_signed_decimal("-9223372036854775808"), Some(i64::MIN));
    assert_eq!(parse_signed_decimal("9223372036854775807"), Some(i64::MAX));
    for text in [
        "", "-", "-0", "007", "+1", "1 ", "\u{e9}", "9223372036854775808",
        "-9223372036854775809", "99999999999999999999999",
    ] {
        assert_eq!(parse_signed_decimal(text), None);
    }
}

#[test]
fn messages_as_json() {
    let request = JSONRPCRequest {
        jsonrpc: "2.0".to_string(),
        id: text_id("call-1"),
        method: "tools/call".to_string(),
        params: Some(parsed("{\"name\":\"echo\"}")),
    };
    assert_eq!(
        JSONRPCMessage::Request(request).body(),
        "{\"id\":\"call-1\",\"jsonrpc\":\"2.0\",\"method\":\"tools/call\",\"params\":{\"name\":\"echo\"}}"
    );
    let response = JSONRPCResponse {
        jsonrpc: "2.0".to_string(),
        id: NumberOrString::Number(3),
        result: None,
        error: Some(JSONRPCError { code: -32010, message: "no\nserver".to_string(), data: None }),
    };
    assert_eq!(
        JSONRPCMessage::Response(response).body(),
        "{\"error\":{\"code\":-32010,\"message\":\"no\\nserver\"},\"id\":3,\"jsonrpc\":\"2.0\"}"
    );
    let response = JSONRPCResponse {
        jsonrpc: "2.0".to_string(),
        id: NumberOrString::Number(3),
        result: Some(parsed("[1,2]")),
        error: None,
    };
    assert_eq!(response.to_value(), parsed("{\"jsonrpc\":\"2.0\",\"id\":3,\"result\":[1,2]}"));
    let notification = JSONRPCNotification {
        jsonrpc: "2.0".to_string(),
        method: "notifications/initialized".to_string(),
        params: None,
    };
    assert_eq!(
        JSONRPCMessage::Notification(notification).to_value(),
        parsed("{\"jsonrpc\":\"2.0\",\"method\":\"notifications/initialized\"}")
    );
    let error = JSONRPCError {
        code: 5,
        message: "five".to_string(),
        data: Some(parsed("true")),
    };
    assert_eq!(error.to_value(), parsed("{\"code\":5,\"message\":\"five\",\"data\":true}"));
}

#[test]
fn written_messages_are_read_back() {
    let mut params = parsed("{\"text\":\"\\u0000 \\\" \u{e9}\",\"n\":[-1,0,18446744073709551615]}");
    for _ in 0..125 {
        params = Value::Array(vec![params]);
    }
    let request = JSONRPCMessage::Request(JSONRPCRequest {
        jsonrpc: "2.0".to_string(),
        id: text_id("deep"),
        method: "x".to_string(),
        params: Some(params),
    });
    assert!(serde_json::from_str::<Value>(&request.body()).is_err());
    let mut shallow = request.clone();
    if let JSONRPCMessage::Request(request) = &mut shallow {
        request.params = request.params.take().map(|params| params[0].clone());
    }
    assert_eq!(parsed(&shallow.body()), shallow.to_value());
}

#[test]
fn a_new_state() {
    let app = AppState::new("http://localhost:4000/sse".to_string(), Some(9));
    assert_eq!(app.url, "http://localhost:4000/sse");
    assert_eq!(app.endpoint, None);
    assert_eq!(app.max_disconnected_time, Some(9));
    assert!(app.disconnected_since.is_none());
    assert_eq!(app.state, ProxyState::Connecting);
    assert_eq!(app.connect_tries, 0);
    assert_eq!(app.init_message, None);
    assert_eq!(app.id_map.len(), 0);
    assert_eq!(app.in_buf, vec![]);
    assert_eq!(app.buf_mode, BufferMode::Store);
    assert_eq!(app.override_protocol_version, None);
    assert!(!app.rewrite_protocol_version);
}

#[test]
fn a_connected_state() {
    let mut app = AppState::new("http://localhost".to_string(), None);
    app.connect_tries = 4;
    app.disconnected_since = Some(Instant::now());
    app.buf_mode = BufferMode::Fail;
    app.connected();
    assert_eq!(app.state, ProxyState::Connected);
    assert_eq!(app.connect_tries, 0);
    assert!(app.disconnected_since.is_none());
    assert_eq!(app.buf_mode, BufferMode::Store);
}

#[test]
fn disconnected_for_too_long() {
    let mut app = AppState::new("http://localhost".to_string(), Some(10));
    assert!(!app.waited_too_long(100));
    assert!(!app.disconnected_too_long());
    app.disconnected_since = Some(Instant::now());
    assert!(!app.disconnected_too_long());
    assert!(!app.waited_too_long(10));
    assert!(app.waited_too_long(11));
    app.disconnected_since = Some(Instant::now() - Duration::from_secs(12));
    assert!(app.disconnected_too_long());
    app.max_disconnected_time = None;
    assert!(!app.waited_too_long(u64::MAX));
    assert!(!app.disconnected_too_long());
}

#[test]
fn requested_protocol_versions() {
    let mut request = JSONRPCRequest {
        jsonrpc: "2.0".to_string(),
        id: NumberOrString::Number(1),
        method: "initialize".to_string(),
        params: None,
    };
    assert_eq!(request.requested_protocol_version(), None);
    request.params = Some(parsed("{\"protocolVersion\":3}"));
    assert_eq!(request.requested_protocol_version(), None);
    request.params = Some(parsed("[]"));
    assert_eq!(request.requested_protocol_version(), None);
    request.params = Some(parsed("{\"protocolVersion\":\"2024-11-05\"}"));
    assert_eq!(request.requested_protocol_version(), Some("2024-11-05".to_string()));

    let mut app = AppState::new("http://localhost".to_string(), None);
    app.init_message = Some(request);
    assert_eq!(app.reported_protocol_version(), None);
    app.rewrite_protocol_version = true;
    assert_eq!(app.reported_protocol_version(), Some("2024-11-05".to_string()));
    app.override_protocol_version = Some("2025-03-26".to_string());
    assert_eq!(app.reported_protocol_version(), Some("2025-03-26".to_string()));
}
