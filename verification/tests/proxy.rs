use mcp_proxy::events::{Action, AfterForward, OnWriteError, ProxyEvent};
use mcp_proxy::ids::GeneratedId;
use mcp_proxy::models::{
    AppState, BufferMode, JSONRPCError, JSONRPCMessage, JSONRPCNotification, JSONRPCRequest,
    JSONRPCResponse, NumberOrString, ProxyState, SSEEvent,
};
use mcp_proxy::replies::{
    initialized_notification, override_version, reply_all_disconnected, reply_disconnected,
    reply_no_resources, reply_ping, reply_send_error,
};
use serde_json::Value;
use std::time::{Duration, Instant};

const URL: &str = "http://localhost:4000/sse";
const ENDPOINT: &str = "http://localhost:4000/message";
const NOT_CONNECTED: &str = "Server not connected. The SSE endpoint is currently not available. Please ensure it is running and retry.";

fn parsed(text: &str) -> Value {
    serde_json::from_str(text).unwrap()
}

fn id(text: &str) -> NumberOrString {
    NumberOrString::String(text.into())
}

fn request_of(name: &str, method: &str) -> JSONRPCRequest {
    JSONRPCRequest {
        jsonrpc: "2.0".to_string(),
        id: id(name),
        method: method.to_string(),
        params: None,
    }
}

fn request(name: &str, method: &str) -> JSONRPCMessage {
    JSONRPCMessage::Request(request_of(name, method))
}

fn response(name: &str, result: &str) -> JSONRPCMessage {
    JSONRPCMessage::Response(JSONRPCResponse {
        jsonrpc: "2.0".to_string(),
        id: id(name),
        result: Some(parsed(result)),
        error: None,
    })
}

fn notification(method: &str) -> JSONRPCMessage {
    JSONRPCMessage::Notification(JSONRPCNotification {
        jsonrpc: "2.0".to_string(),
        method: method.to_string(),
        params: None,
    })
}

fn refusal(name: &str) -> JSONRPCMessage {
    JSONRPCMessage::Response(JSONRPCResponse {
        jsonrpc: "2.0".to_string(),
        id: id(name),
        result: None,
        error: Some(JSONRPCError {
            code: -32010,
            message: NOT_CONNECTED.to_string(),
            data: None,
        }),
    })
}

fn step(app: &mut AppState, event: ProxyEvent) -> Vec<Action> {
    assert!(app.can_handle(&event));
    app.handle_event_with(event, "fresh".to_string(), Instant::now(), 0)
}

fn connected() -> AppState {
    let mut app = AppState::new(URL.to_string(), None);
    step(&mut app, ProxyEvent::ConnectToSSE);
    step(&mut app, ProxyEvent::SSEEvent(SSEEvent::Endpoint("/message".to_string())));
    step(&mut app, ProxyEvent::IOEvent(request("init-1", "initialize")));
    app.forward_settled(AfterForward::ClientInit(request_of("init-1", "initialize")), Ok(()));
    step(&mut app, ProxyEvent::SSEEvent(SSEEvent::Message(response("init-1", "{}"))));
    step(&mut app, ProxyEvent::IOEvent(notification("notifications/initialized")));
    app.forward_settled(AfterForward::Handshake, Ok(()));
    assert_eq!(app.state, ProxyState::Connected);
    app
}

#[test]
fn protocol_initialization() {
    let mut app = AppState::new(URL.to_string(), None);
    assert_eq!(step(&mut app, ProxyEvent::ConnectToSSE), vec![Action::Connect(URL.to_string())]);
    assert_eq!(app.state, ProxyState::WaitingForEndpoint);

    let endpoint = ProxyEvent::SSEEvent(SSEEvent::Endpoint("/message".to_string()));
    assert_eq!(step(&mut app, endpoint), vec![Action::StartReader]);
    assert_eq!(app.state, ProxyState::WaitingForClientInit);
    assert_eq!(app.endpoint, Some(ENDPOINT.to_string()));

    let init = request("init-1", "initialize");
    let after = AfterForward::ClientInit(request_of("init-1", "initialize"));
    assert_eq!(
        step(&mut app, ProxyEvent::IOEvent(init.clone())),
        vec![Action::Forward(init, ENDPOINT.to_string(), after)]
    );
    let after = AfterForward::ClientInit(request_of("init-1", "initialize"));
    assert_eq!(app.forward_settled(after, Ok(())), vec![]);
    assert_eq!(app.state, ProxyState::WaitingForServerInit(id("init-1")));

    let answer = response("init-1", "{\"protocolVersion\":\"2025-03-26\"}");
    assert_eq!(
        step(&mut app, ProxyEvent::SSEEvent(SSEEvent::Message(answer.clone()))),
        vec![Action::Write(answer, OnWriteError::Stop)]
    );
    assert_eq!(app.state, ProxyState::WaitingForClientInitialized);

    let initialized = notification("notifications/initialized");
    assert_eq!(
        step(&mut app, ProxyEvent::IOEvent(initialized.clone())),
        vec![Action::Forward(initialized, ENDPOINT.to_string(), AfterForward::Handshake)]
    );
    assert_eq!(
        app.forward_settled(AfterForward::Handshake, Ok(())),
        vec![Action::Enqueue(ProxyEvent::FlushInBuffer)]
    );
    assert_eq!(app.state, ProxyState::Connected);
}

#[test]
fn a_call_and_its_answer() {
    let mut app = connected();
    let after = AfterForward::Request { original_id: id("call-1"), new_id: "fresh".to_string() };
    assert_eq!(
        step(&mut app, ProxyEvent::IOEvent(request("call-1", "tools/call"))),
        vec![Action::Forward(request("fresh", "tools/call"), ENDPOINT.to_string(), after)]
    );
    let after = AfterForward::Request { original_id: id("call-1"), new_id: "fresh".to_string() };
    assert_eq!(app.forward_settled(after, Ok(())), vec![]);
    let answer = ProxyEvent::SSEEvent(SSEEvent::Message(response("fresh", "\"Hey!\"")));
    assert_eq!(
        step(&mut app, answer),
        vec![Action::Write(response("call-1", "\"Hey!\""), OnWriteError::Log)]
    );
    let again = ProxyEvent::SSEEvent(SSEEvent::Message(response("fresh", "\"Hey!\"")));
    assert_eq!(step(&mut app, again), vec![]);
}

#[test]
fn a_call_that_cannot_be_sent() {
    let mut app = connected();
    step(&mut app, ProxyEvent::IOEvent(request("call-1", "tools/call")));
    let after = AfterForward::Request { original_id: id("call-1"), new_id: "fresh".to_string() };
    let actions = app.forward_settled(after, Err("Request timed out after 5 ms".to_string()));
    let reply = JSONRPCMessage::Response(JSONRPCResponse {
        jsonrpc: "2.0".to_string(),
        id: id("call-1"),
        result: None,
        error: Some(JSONRPCError {
            code: -32011,
            message: "Request timed out after 5 ms".to_string(),
            data: None,
        }),
    });
    assert_eq!(actions, vec![Action::Write(reply, OnWriteError::Log)]);
    let late = ProxyEvent::SSEEvent(SSEEvent::Message(response("fresh", "1")));
    assert_eq!(step(&mut app, late), vec![]);
}

#[test]
fn a_request_of_the_server_and_its_answer() {
    let mut app = connected();
    let asked = ProxyEvent::SSEEvent(SSEEvent::Message(request("s-1", "roots/list")));
    assert_eq!(
        step(&mut app, asked),
        vec![Action::Write(request("fresh", "roots/list"), OnWriteError::Log)]
    );
    assert_eq!(
        step(&mut app, ProxyEvent::IOEvent(response("fresh", "[]"))),
        vec![Action::Forward(response("s-1", "[]"), ENDPOINT.to_string(), AfterForward::Nothing)]
    );
    assert_eq!(step(&mut app, ProxyEvent::IOEvent(response("fresh", "[]"))), vec![]);
}

#[test]
fn notifications_pass() {
    let mut app = connected();
    let message = notification("notifications/message");
    assert_eq!(
        step(&mut app, ProxyEvent::SSEEvent(SSEEvent::Message(message.clone()))),
        vec![Action::Write(message.clone(), OnWriteError::Log)]
    );
    assert_eq!(
        step(&mut app, ProxyEvent::IOEvent(message.clone())),
        vec![Action::Forward(message, ENDPOINT.to_string(), AfterForward::Nothing)]
    );
}

#[test]
fn ping_when_disconnected() {
    let mut app = connected();
    step(&mut app, ProxyEvent::SSEError("SSE stream ended".to_string()));
    assert_eq!(app.state, ProxyState::Disconnected);
    assert_eq!(
        step(&mut app, ProxyEvent::IOEvent(request("ping-1", "ping"))),
        vec![Action::Write(response("ping-1", "{}"), OnWriteError::Stop)]
    );
}

#[test]
fn reconnection_handling() {
    let mut app = connected();
    let actions = step(&mut app, ProxyEvent::SSEError("SSE stream ended".to_string()));
    assert_eq!(
        actions,
        vec![
            Action::Schedule(ProxyEvent::FailFlush, 20),
            Action::Schedule(ProxyEvent::Reconnect, 1),
        ]
    );
    assert_eq!(app.endpoint, None);
    assert_eq!(app.connect_tries, 1);
    assert_eq!(step(&mut app, ProxyEvent::IOEvent(request("call-2", "tools/call"))), vec![]);
    assert_eq!(app.in_buf, vec![request("call-2", "tools/call")]);
    assert_eq!(
        step(&mut app, ProxyEvent::IOEvent(request("list-1", "tools/list"))),
        vec![Action::Write(refusal("list-1"), OnWriteError::Stop)]
    );

    let actions = step(&mut app, ProxyEvent::SSEError("refused".to_string()));
    assert_eq!(actions, vec![Action::Schedule(ProxyEvent::Reconnect, 2)]);
    assert_eq!(
        step(&mut app, ProxyEvent::Reconnect),
        vec![Action::Connect(URL.to_string())]
    );
    let endpoint = ProxyEvent::SSEEvent(SSEEvent::Endpoint("/message".to_string()));
    assert_eq!(
        step(&mut app, endpoint),
        vec![Action::Forward(
            request("init-1", "initialize"),
            ENDPOINT.to_string(),
            AfterForward::InitResent(id("init-1")),
        )]
    );
    assert_eq!(app.forward_settled(AfterForward::InitResent(id("init-1")), Ok(())), vec![]);
    assert_eq!(app.state, ProxyState::WaitingForServerInitHidden(id("init-1")));
    let answer = ProxyEvent::SSEEvent(SSEEvent::Message(response("init-1", "{}")));
    assert_eq!(
        step(&mut app, answer),
        vec![Action::Forward(
            JSONRPCMessage::Notification(initialized_notification()),
            ENDPOINT.to_string(),
            AfterForward::Handshake,
        )]
    );
    assert_eq!(
        app.forward_settled(AfterForward::Handshake, Ok(())),
        vec![Action::Enqueue(ProxyEvent::FlushInBuffer)]
    );
    assert_eq!(app.state, ProxyState::Connected);
    assert_eq!(app.connect_tries, 0);
    assert_eq!(
        step(&mut app, ProxyEvent::FlushInBuffer),
        vec![Action::Enqueue(ProxyEvent::IOEvent(request("call-2", "tools/call")))]
    );
    assert_eq!(app.in_buf, vec![]);
}

#[test]
fn a_server_that_does_not_come_back() {
    let mut app = connected();
    step(&mut app, ProxyEvent::IOEvent(request("call-1", "tools/call")));
    let after = AfterForward::Request { original_id: id("call-1"), new_id: "fresh".to_string() };
    app.forward_settled(after, Ok(()));
    assert_eq!(step(&mut app, ProxyEvent::FailFlush), vec![]);
    assert_eq!(app.id_map.len(), 1);
    step(&mut app, ProxyEvent::SSEError("gone".to_string()));
    step(&mut app, ProxyEvent::IOEvent(request("call-2", "tools/call")));
    step(&mut app, ProxyEvent::IOEvent(request("call-3", "tools/call")));
    assert_eq!(
        step(&mut app, ProxyEvent::FailFlush),
        vec![
            Action::Write(refusal("call-2"), OnWriteError::Log),
            Action::Write(refusal("call-3"), OnWriteError::Log),
        ]
    );
    assert_eq!(app.in_buf, vec![]);
    assert_eq!(app.id_map.len(), 0);
    assert_eq!(app.buf_mode, BufferMode::Fail);
}

#[test]
fn the_time_for_reconnecting_is_over() {
    let mut app = AppState::new(URL.to_string(), Some(10));
    let first = Instant::now();
    app.handle_event_with(ProxyEvent::SSEError("x".to_string()), String::new(), first, 0);
    assert_eq!(app.disconnected_since, Some(first));
    let later = first + Duration::from_secs(11);
    let error = ProxyEvent::SSEError("x".to_string());
    let actions = app.handle_event_with(error, String::new(), later, 11);
    assert_eq!(actions, vec![Action::Stop(Err("Reconnect timeout exceeded".to_string()))]);
    assert_eq!(app.disconnected_since, Some(first));
}

#[test]
fn the_clock_and_the_generator() {
    let mut app = connected();
    app.max_disconnected_time = Some(5);
    app.disconnected_since = Some(Instant::now() - Duration::from_secs(7));
    let event = ProxyEvent::SSEError("x".to_string());
    assert!(app.can_handle(&event));
    let mut last = GeneratedId::generate();
    let actions = app.handle_event(event, &mut last);
    assert_eq!(
        actions.last(),
        Some(&Action::Stop(Err("Reconnect timeout exceeded".to_string())))
    );

    let mut app = connected();
    let mut ids = vec![];
    for name in ["call-1", "call-2", "call-3"] {
        let event = ProxyEvent::IOEvent(request(name, "tools/call"));
        match app.handle_event(event, &mut last).remove(0) {
            Action::Forward(JSONRPCMessage::Request(sent), _, after) => {
                assert_eq!(sent.id.to_string(), last.to_text());
                assert_eq!(sent.id.to_string().len(), 36);
                ids.push(sent.id.to_string());
                app.forward_settled(after, Ok(()));
            }
            other => panic!("unexpected: {:?}", other),
        }
    }
    assert!(ids[0] < ids[1] && ids[1] < ids[2]);
    assert_eq!(app.id_map.len(), 3);
    for (new_id, name) in ids.iter().zip(["call-1", "call-2", "call-3"]) {
        let answer = ProxyEvent::SSEEvent(SSEEvent::Message(response(new_id, "1")));
        assert_eq!(
            app.handle_event(answer, &mut last),
            vec![Action::Write(response(name, "1"), OnWriteError::Log)]
        );
    }
    assert_eq!(app.id_map.len(), 0);
}

#[test]
fn events_that_end_the_proxy() {
    let mut app = AppState::new(URL.to_string(), None);
    assert_eq!(
        step(&mut app, ProxyEvent::IOError("bad line".to_string())),
        vec![Action::Stop(Err("IO error: bad line".to_string()))]
    );
    assert_eq!(
        step(&mut app, ProxyEvent::Shutdown("Stdin closed".to_string())),
        vec![Action::Stop(Ok(()))]
    );
}

#[test]
fn events_that_cannot_be_handled() {
    let app = AppState::new(URL.to_string(), None);
    assert!(!app.can_handle(&ProxyEvent::IOEvent(notification("notifications/initialized"))));
    assert!(!app.can_handle(&ProxyEvent::IOEvent(response("1", "1"))));
    assert!(app.can_handle(&ProxyEvent::IOEvent(request("1", "ping"))));
}

#[test]
fn an_endpoint_at_the_wrong_time() {
    let mut app = connected();
    let endpoint = ProxyEvent::SSEEvent(SSEEvent::Endpoint("/other".to_string()));
    assert_eq!(step(&mut app, endpoint), vec![]);
    assert_eq!(app.endpoint, Some(ENDPOINT.to_string()));
}

#[test]
fn other_events_of_the_server() {
    let mut app = connected();
    let other = SSEEvent::Other("ping".to_string(), "1".to_string());
    assert_eq!(step(&mut app, ProxyEvent::SSEEvent(other)), vec![]);
}

#[test]
fn a_handshake_that_fails() {
    let mut app = connected();
    step(&mut app, ProxyEvent::SSEError("x".to_string()));
    step(&mut app, ProxyEvent::Reconnect);
    step(&mut app, ProxyEvent::SSEEvent(SSEEvent::Endpoint("/message".to_string())));
    assert_eq!(
        app.forward_settled(AfterForward::InitResent(id("init-1")), Err("late".to_string())),
        vec![Action::Stop(Err("late".to_string()))]
    );
}

#[test]
fn another_protocol_version() {
    for (given, rewrite, expected) in [
        (None, false, "2025-03-26"),
        (None, true, "2024-11-05"),
        (Some("1.0".to_string()), true, "1.0"),
    ] {
        let mut init = request_of("init-compat", "initialize");
        init.params = Some(parsed("{\"protocolVersion\":\"2024-11-05\",\"capabilities\":{}}"));
        let mut app = AppState::new(URL.to_string(), None);
        app.override_protocol_version = given;
        app.rewrite_protocol_version = rewrite;
        app.endpoint = Some(ENDPOINT.to_string());
        app.state = ProxyState::WaitingForServerInit(id("init-compat"));
        app.init_message = Some(init);
        let answer = response("init-compat", "{\"protocolVersion\":\"2025-03-26\",\"x\":1}");
        let actions = step(&mut app, ProxyEvent::SSEEvent(SSEEvent::Message(answer)));
        let seen = format!("{{\"protocolVersion\":\"{}\",\"x\":1}}", expected);
        assert_eq!(
            actions,
            vec![Action::Write(response("init-compat", &seen), OnWriteError::Stop)]
        );
    }
}

#[test]
fn answers_without_a_version_stay() {
    let version = Some("1.0".to_string());
    for result in ["{\"x\":1}", "[]", "null"] {
        let answer = match response("a", result) {
            JSONRPCMessage::Response(answer) => answer,
            _ => unreachable!(),
        };
        assert_eq!(override_version(answer.clone(), &version), answer);
    }
}

#[test]
fn replies_of_the_proxy() {
    assert_eq!(JSONRPCMessage::Response(reply_disconnected(&id("a"))), refusal("a"));
    assert_eq!(JSONRPCMessage::Response(reply_ping(&id("a"))), response("a", "{}"));
    assert_eq!(
        JSONRPCMessage::Response(reply_no_resources(&id("a"))),
        response("a", "{\"resources\":[]}")
    );
    let failed = reply_send_error(&NumberOrString::Number(4), "why".to_string());
    assert_eq!(
        failed.to_value(),
        parsed("{\"jsonrpc\":\"2.0\",\"id\":4,\"error\":{\"code\":-32011,\"message\":\"why\"}}")
    );
    assert_eq!(
        JSONRPCMessage::Notification(initialized_notification()),
        notification("notifications/initialized")
    );
}

#[test]
fn every_kept_request_is_refused() {
    let messages = vec![
        request("1", "tools/call"),
        notification("notifications/message"),
        request("2", "tools/call"),
    ];
    assert_eq!(reply_all_disconnected(&messages), vec![refusal("1"), refusal("2")]);
}
