use mcp_proxy::events::ProxyEvent;
use mcp_proxy::models::{JSONRPCMessage, JSONRPCNotification, SSEEvent};
use mcp_proxy::sse::{PendingEvent, SSEStream, StreamInput, StreamOutput};
use mcp_proxy::tasks::{
    parsed_line, process_stdin, process_stream_item, stream_not_opened, StdinRead, TaskStep,
};

fn event(event_type: &str, data: &str) -> PendingEvent {
    PendingEvent { event_type: event_type.to_string(), data: data.to_string() }
}

fn bytes(text: &str) -> StreamInput {
    StreamInput::Bytes(text.as_bytes().to_vec())
}

fn notification() -> JSONRPCMessage {
    JSONRPCMessage::Notification(JSONRPCNotification {
        jsonrpc: "2.0".to_string(),
        method: "notifications/message".to_string(),
        params: None,
    })
}

#[test]
fn lines_make_an_event() {
    let mut stream = SSEStream::new();
    assert_eq!(stream.process_line("event: endpoint"), None);
    assert_eq!(stream.process_line("data:  /message "), None);
    assert_eq!(stream.process_line(": a comment"), None);
    assert_eq!(stream.process_line(""), Some(event("endpoint", "/message")));
    assert_eq!(stream, SSEStream::new());
}

#[test]
fn an_event_without_a_type_is_a_message() {
    let mut stream = SSEStream::new();
    stream.process_line("data:{}");
    assert_eq!(stream.process_line(""), Some(event("message", "{}")));
}

#[test]
fn an_event_without_data_keeps_its_type() {
    let mut stream = SSEStream::new();
    stream.process_line("event: endpoint");
    assert_eq!(stream.process_line(""), None);
    assert_eq!(stream.event_type, Some("endpoint".to_string()));
    stream.process_line("data: /x");
    assert_eq!(stream.process_line(""), Some(event("endpoint", "/x")));
}

#[test]
fn the_last_data_counts() {
    let mut stream = SSEStream::new();
    stream.process_line("data: 1");
    stream.process_line("data: 2");
    assert_eq!(stream.process_line(""), Some(event("message", "2")));
}

#[test]
fn events_of_a_chunk() {
    let mut stream = SSEStream::new();
    let text = "event: endpoint\r\ndata: /message\r\n\r\ndata: {\"a\":1}\n\ndata: rest";
    assert_eq!(stream.receive(bytes(text)), StreamOutput::More);
    assert_eq!(stream.next_event(), Some(event("endpoint", "/message")));
    assert_eq!(stream.next_event(), Some(event("message", "{\"a\":1}")));
    assert_eq!(stream.next_event(), None);
    assert_eq!(stream.buffer, "data: rest");
}

#[test]
fn chunks_of_any_size() {
    let text = "event: endpoint\ndata: /a\n\n\nid: 3\ndata: \u{e9}t\u{e9}\n\n";
    let expected = vec![event("endpoint", "/a"), event("message", "\u{e9}t\u{e9}")];
    let chars: Vec<char> = text.chars().collect();
    for size in 1..chars.len() {
        let mut stream = SSEStream::new();
        let mut events = vec![];
        for chunk in chars.chunks(size) {
            let chunk: String = chunk.iter().collect();
            assert_eq!(stream.receive(bytes(&chunk)), StreamOutput::More);
            while let Some(event) = stream.next_event() {
                events.push(event);
            }
        }
        assert_eq!(events, expected);
        assert_eq!(stream, SSEStream::new());
    }
}

#[test]
fn a_written_event_is_read_back() {
    let mut stream = SSEStream::new();
    stream.receive(bytes("event: custom\ndata: some data\n\nbehind"));
    assert_eq!(stream.next_event(), Some(event("custom", "some data")));
    assert_eq!(stream.buffer, "behind");
}

#[test]
fn bytes_that_are_no_text() {
    let mut stream = SSEStream::new();
    stream.receive(bytes("data: "));
    let output = stream.receive(StreamInput::Bytes(vec![0xff]));
    assert_eq!(
        output,
        StreamOutput::Error(
            "Invalid UTF-8: invalid utf-8 sequence of 1 bytes from index 0".to_string()
        )
    );
    assert_eq!(stream.buffer, "data: ");
}

#[test]
fn a_stream_that_fails() {
    let mut stream = SSEStream::new();
    assert_eq!(
        stream.receive(StreamInput::Failed("broken pipe".to_string())),
        StreamOutput::Error("Stream error: broken pipe".to_string())
    );
}

#[test]
fn a_stream_that_ends() {
    let mut stream = SSEStream::new();
    assert_eq!(stream.receive(StreamInput::Ended), StreamOutput::End);
    stream.receive(bytes("data: 1\nevent: x"));
    assert_eq!(stream.next_event(), None);
    assert_eq!(stream.receive(StreamInput::Ended), StreamOutput::End);
    assert_eq!(stream.buffer, "");
    assert_eq!(stream.event_type, Some("x".to_string()));
    assert_eq!(stream.data, "1");
}

#[test]
fn kinds_of_events() {
    assert!(event("message", "{}").is_message());
    assert!(!event("endpoint", "/x").is_message());
    assert_eq!(
        event("message", "{}").resolve(Some(notification())),
        SSEEvent::Message(notification())
    );
    assert_eq!(
        event("message", "{}").resolve(None),
        SSEEvent::Other("message".to_string(), "{}".to_string())
    );
    assert_eq!(event("endpoint", "/x").resolve(None), SSEEvent::Endpoint("/x".to_string()));
    assert_eq!(
        event("ping", "1").resolve(Some(notification())),
        SSEEvent::Other("ping".to_string(), "1".to_string())
    );
}

#[test]
fn the_stream_task() {
    let endpoint = SSEEvent::Endpoint("/x".to_string());
    assert_eq!(
        process_stream_item(Some(Ok(endpoint.clone()))),
        TaskStep::Send(ProxyEvent::SSEEvent(endpoint))
    );
    let end = vec![ProxyEvent::SSEError("SSE stream ended".to_string())];
    assert_eq!(process_stream_item(None), TaskStep::End(end));
    let end = vec![ProxyEvent::SSEError("SSE stream ended".to_string())];
    assert_eq!(process_stream_item(Some(Err("x".to_string()))), TaskStep::End(end));
    assert_eq!(
        stream_not_opened("refused".to_string()),
        ProxyEvent::SSEError("refused".to_string())
    );
}

#[test]
fn the_stdin_task() {
    assert_eq!(
        process_stdin(StdinRead::Line("{}\n".to_string())),
        TaskStep::Parse("{}".to_string())
    );
    assert_eq!(
        process_stdin(StdinRead::Line("{}\n\n".to_string())),
        TaskStep::Parse("{}\n".to_string())
    );
    assert_eq!(process_stdin(StdinRead::Line("{}".to_string())), TaskStep::Parse("{}".to_string()));
    assert_eq!(
        process_stdin(StdinRead::Closed),
        TaskStep::End(vec![ProxyEvent::Shutdown("Stdin closed".to_string())])
    );
    assert_eq!(
        process_stdin(StdinRead::Failed("broken".to_string())),
        TaskStep::End(vec![
            ProxyEvent::IOError("Error reading from stdin: broken".to_string()),
            ProxyEvent::Shutdown("Stdin closed".to_string()),
        ])
    );
    assert_eq!(parsed_line(Ok(notification())), ProxyEvent::IOEvent(notification()));
    assert_eq!(
        parsed_line(Err("expected value".to_string())),
        ProxyEvent::IOError("Error parsing JSON: expected value".to_string())
    );
}
