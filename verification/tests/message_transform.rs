use bytes::BytesMut;
use mcp_proxy::message_transform::{
    find_brace, find_message_end, transform_value, McpCompatCodec, Rewritten,
};
use rmcp::model::ClientJsonRpcMessage;
use serde_json::Value;

fn parsed(text: &str) -> Value {
    serde_json::from_str(text).unwrap()
}

fn as_json(message: &ClientJsonRpcMessage) -> Value {
    serde_json::to_value(message).unwrap()
}

#[test]
fn initialized_gets_its_long_name() {
    assert_eq!(
        transform_value(parsed("{\"jsonrpc\":\"2.0\",\"method\":\"initialized\",\"params\":{}}")),
        Some(parsed("{\"jsonrpc\":\"2.0\",\"method\":\"notifications/initialized\"}"))
    );
    assert_eq!(
        transform_value(parsed("{\"method\":\"initialized\",\"params\":null}")),
        Some(parsed("{\"method\":\"notifications/initialized\"}"))
    );
    assert_eq!(
        transform_value(parsed("{\"method\":\"initialized\",\"params\":{\"a\":1},\"x\":[]}")),
        Some(parsed("{\"method\":\"notifications/initialized\",\"params\":{\"a\":1},\"x\":[]}"))
    );
    assert_eq!(
        transform_value(parsed("{\"method\":\"initialized\",\"params\":[]}")),
        Some(parsed("{\"method\":\"notifications/initialized\",\"params\":[]}"))
    );
}

#[test]
fn progress_is_filtered() {
    assert_eq!(transform_value(parsed("{\"method\":\"progress\",\"params\":{\"a\":1}}")), None);
}

#[test]
fn other_values_stay() {
    for text in [
        "{\"method\":\"tools/call\",\"params\":{}}",
        "{\"method\":\"notifications/progress\"}",
        "{\"method\":7}",
        "{\"result\":\"initialized\"}",
        "[\"initialized\"]",
        "\"progress\"",
        "null",
    ] {
        assert_eq!(transform_value(parsed(text)), Some(parsed(text)));
    }
}

#[test]
fn fitting_values_stay() {
    let once = transform_value(parsed("{\"method\":\"initialized\"}")).unwrap();
    assert_eq!(transform_value(once.clone()), Some(once));
}

#[test]
fn transformed_texts() {
    assert_eq!(
        McpCompatCodec::transform_message("{ \"method\" : \"initialized\" }").unwrap(),
        "{\"method\":\"notifications/initialized\"}"
    );
    assert_eq!(McpCompatCodec::transform_message("{\"method\":\"progress\"}").unwrap(), "");
    assert_eq!(
        McpCompatCodec::transform_message("{ \"b\": 1, \"a\": \"\\n\" }").unwrap(),
        "{\"a\":\"\\n\",\"b\":1}"
    );
    assert_eq!(
        McpCompatCodec::transform_message("{ nonsense }").unwrap_err().to_string(),
        "key must be a string at line 1 column 3"
    );
}

#[test]
fn fitting_a_text_twice() {
    for text in [
        "{ \"method\" : \"initialized\", \"params\": {} }",
        "{\"z\":[-9223372036854775808,18446744073709551615,-0],\"a\":\"\\u0041\\n\"}",
        " [ true , null ] ",
    ] {
        let once = McpCompatCodec::transform_message(text).unwrap();
        assert!(!once.contains('\n'));
        assert_eq!(McpCompatCodec::transform_message(&once).unwrap(), once);
    }
    assert_eq!(McpCompatCodec::transform_message("[-0]").unwrap(), "[-0.0]");
}

#[test]
fn texts_that_are_nested_deep() {
    let nested = |depth: usize| format!("{}{}", "[".repeat(depth), "]".repeat(depth));
    assert_eq!(McpCompatCodec::transform_message(&nested(127)).unwrap(), nested(127));
    assert!(McpCompatCodec::transform_message(&nested(128)).is_err());
}

#[test]
fn braces() {
    assert_eq!(find_brace(b"  x {}"), Some(4));
    assert_eq!(find_brace(b"}\n"), None);
    assert_eq!(find_brace(b""), None);
}

#[test]
fn message_ends() {
    assert_eq!(find_message_end(b"{}"), Some(2));
    assert_eq!(find_message_end(b"{\"a\":{}} {"), Some(8));
    assert_eq!(find_message_end(b"{\"}\":1}"), Some(7));
    assert_eq!(find_message_end(b"{\"\\\"}\":1}x"), Some(9));
    assert_eq!(find_message_end(b"{\"\\\\\"}"), Some(6));
    assert_eq!(find_message_end(b"{\"a"), None);
    assert_eq!(find_message_end(b"{{}"), None);
}

#[test]
fn rewritten_buffers() {
    assert_eq!(McpCompatCodec::rewrite(b"no message\n"), Rewritten::Nothing);
    assert_eq!(
        McpCompatCodec::rewrite(b" {\"method\":\"initial"),
        Rewritten::Ready(b" {\"method\":\"initial".to_vec())
    );
    assert_eq!(
        McpCompatCodec::rewrite(b" { \"method\":\"initialized\" }\nrest"),
        Rewritten::Ready(b" {\"method\":\"notifications/initialized\"}\nrest".to_vec())
    );
    assert_eq!(
        McpCompatCodec::rewrite(b"a{\"method\":\"progress\"}\nb"),
        Rewritten::Removed(b"a\nb".to_vec())
    );
    assert_eq!(McpCompatCodec::rewrite(b"{x}\n"), Rewritten::Ready(b"{x}\n".to_vec()));
}

#[test]
fn bytes_that_are_no_text_are_replaced() {
    assert_eq!(
        McpCompatCodec::rewrite(b"{\"a\":\"\xff\"}\n"),
        Rewritten::Ready("{\"a\":\"\u{fffd}\"}\n".as_bytes().to_vec())
    );
}

#[test]
fn messages_are_decoded() {
    let mut codec = McpCompatCodec::default();
    let mut buffer = BytesMut::from(
        &b"{\"jsonrpc\":\"2.0\",\"id\":1,\"method\":\"ping\"}\r\n{\"jsonrpc\":\"2.0\",\"method\":\"initialized\",\"params\":{}}\n"[..],
    );
    let message = codec.decode(&mut buffer).unwrap().unwrap();
    assert_eq!(as_json(&message), parsed("{\"jsonrpc\":\"2.0\",\"id\":1,\"method\":\"ping\"}"));
    let message = codec.decode(&mut buffer).unwrap().unwrap();
    assert_eq!(
        as_json(&message),
        parsed("{\"jsonrpc\":\"2.0\",\"method\":\"notifications/initialized\"}")
    );
    assert_eq!(&buffer[..], b"");
    assert!(codec.decode(&mut buffer).unwrap().is_none());
}

#[test]
fn progress_is_not_decoded() {
    let mut codec = McpCompatCodec::default();
    let mut buffer = BytesMut::from(&b"{\"jsonrpc\":\"2.0\",\"method\":\"progress\"}\n"[..]);
    assert!(codec.decode(&mut buffer).unwrap().is_none());
    assert_eq!(&buffer[..], b"\n");
}

#[test]
fn a_message_in_pieces() {
    let mut codec = McpCompatCodec::default();
    let mut buffer = BytesMut::from(&b"{\"id\":1,\"jsonrpc\":\"2.0\",\"met"[..]);
    assert!(codec.decode(&mut buffer).unwrap().is_none());
    buffer.extend_from_slice(b"hod\":\"ping\"}");
    assert!(codec.decode(&mut buffer).unwrap().is_none());
    assert_eq!(&buffer[..], b"{\"id\":1,\"jsonrpc\":\"2.0\",\"method\":\"ping\"}");
    buffer.extend_from_slice(b"\n");
    let message = codec.decode(&mut buffer).unwrap().unwrap();
    assert_eq!(as_json(&message)["method"], "ping");
}

#[test]
fn a_line_that_is_no_message() {
    let mut codec = McpCompatCodec::default();
    let mut buffer = BytesMut::from(&b"{x}\n{\"jsonrpc\":\"2.0\",\"id\":1,\"method\":\"ping\"}\n"[..]);
    assert_eq!(
        codec.decode(&mut buffer).unwrap_err().to_string(),
        "serde error key must be a string at line 1 column 2"
    );
    assert!(codec.decode(&mut buffer).unwrap().is_some());
}

#[test]
fn lines_without_a_brace_wait() {
    let mut codec = McpCompatCodec::default();
    let mut buffer = BytesMut::from(&b"hello\n"[..]);
    assert!(codec.decode(&mut buffer).unwrap().is_none());
    assert_eq!(&buffer[..], b"hello\n");
}

#[test]
fn a_buffer_that_became_too_short() {
    let mut codec = McpCompatCodec::default();
    let mut buffer = BytesMut::from(&b"{ \"method\" : \"progress\"   "[..]);
    assert!(codec.try_decode(&mut buffer).unwrap().unwrap().is_none());
    buffer.extend_from_slice(b"}");
    assert!(codec.try_decode(&mut buffer).unwrap().unwrap().is_none());
    assert_eq!(&buffer[..], b"");
    buffer.extend_from_slice(b"{");
    assert!(codec.try_decode(&mut buffer).is_none());
    assert_eq!(&buffer[..], b"{");
}

#[test]
fn messages_with_unordered_members() {
    let line = "{\"jsonrpc\":\"2.0\",\"id\":1,\"method\":\"completion/complete\",\"params\":{\"ref\":{\"type\":\"ref/prompt\",\"name\":\"p\"},\"argument\":{\"name\":\"a\",\"value\":\"v\"},\"context\":{\"arguments\":{\"x\":\"1\",\"y\":\"2\",\"z\":\"3\"}}}}\n";
    for _ in 0..8 {
        let mut codec = McpCompatCodec::default();
        let mut buffer = BytesMut::from(line.as_bytes());
        let message = codec.decode(&mut buffer).unwrap().unwrap();
        assert_eq!(as_json(&message), parsed(line));
        let mut out = BytesMut::new();
        codec.encode(message, &mut out).unwrap();
        assert_eq!(out.iter().filter(|b| **b == b'\n').count(), 1);
        assert_eq!(serde_json::from_slice::<Value>(&out).unwrap(), parsed(line));
    }
}

#[test]
fn messages_are_encoded() {
    let mut codec = McpCompatCodec::default();
    let mut buffer = BytesMut::from(&b"{\"jsonrpc\":\"2.0\",\"id\":1,\"method\":\"ping\"}\n"[..]);
    let message = codec.decode(&mut buffer).unwrap().unwrap();
    let mut out = BytesMut::from(&b"before "[..]);
    codec.encode(message.clone(), &mut out).unwrap();
    assert!(out.starts_with(b"before {"));
    assert!(out.ends_with(b"}\n"));
    let line: Value = serde_json::from_slice(&out[7..]).unwrap();
    assert_eq!(line, as_json(&message));
}
