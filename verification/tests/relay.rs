use mcp_proxy::ids::GeneratedId;
use mcp_proxy::models::{
    AppState, BufferMode, JSONRPCMessage, JSONRPCNotification, JSONRPCRequest, JSONRPCResponse,
    NumberOrString, ProxyState,
};
use mcp_proxy::relay::{is_progress, replay_settled, reply_transport_error, RelayStep};
use mcp_proxy::replies::{initialized_notification, reply_disconnected};
use serde_json::Value;
use std::time::{Duration, Instant};

fn parsed(text: &str) -> Value {
    serde_json::from_str(text).unwrap()
}

fn id(text: &str) -> NumberOrString {
    NumberOrString::String(text.into())
}

fn call(name: &str, method: &str) -> JSONRPCRequest {
    JSONRPCRequest {
        jsonrpc: "2.0".to_string(),
        id: id(name),
        method: method.to_string(),
        params: None,
    }
}

fn request(name: &str, method: &str) -> JSONRPCMessage {
    JSONRPCMessage::Request(call(name, method))
}

fn response(name: &str, result: &str) -> JSONRPCMessage {
    JSONRPCMessage::Response(JSONRPCResponse {
        jsonrpc: "2.0".to_string(),
        id: id(name),
        result: Some(parsed(result)),
        error: None,
    })
}

fn notice(method: &str) -> JSONRPCNotification {
    JSONRPCNotification { jsonrpc: "2.0".to_string(), method: method.to_string(), params: None }
}

fn notification(method: &str) -> JSONRPCMessage {
    JSONRPCMessage::Notification(notice(method))
}

fn refusal(name: &str) -> JSONRPCMessage {
    JSONRPCMessage::Response(reply_disconnected(&id(name)))
}

fn client(app: &mut AppState, message: JSONRPCMessage, fresh: &str) -> RelayStep {
    app.process_client_request_with(message, fresh.to_string())
}

fn server(app: &mut AppState, message: JSONRPCMessage, fresh: &str) -> RelayStep {
    app.process_server_message_with(message, fresh.to_string())
}

fn sent(name: &str, original: &str, method: &str) -> RelayStep {
    RelayStep::Send(request(name, method), Some(call(original, method)))
}

fn waiting() -> AppState {
    let mut app = AppState::new("http://localhost:4000".to_string(), None);
    app.state = ProxyState::WaitingForClientInit;
    app
}

fn connected() -> AppState {
    let mut app = waiting();
    client(&mut app, request("init-1", "initialize"), "n-init");
    server(&mut app, response("n-init", "{}"), "unused");
    client(&mut app, notification("notifications/initialized"), "unused");
    assert_eq!(app.state, ProxyState::Connected);
    app
}

fn disconnected() -> AppState {
    let mut app = connected();
    app.handle_fatal_transport_error(Instant::now());
    app
}

#[test]
fn relayed_initialization() {
    let mut app = waiting();
    assert_eq!(
        client(&mut app, request("init-1", "initialize"), "n-init"),
        sent("n-init", "init-1", "initialize")
    );
    assert_eq!(app.state, ProxyState::WaitingForServerInit(id("init-1")));
    assert_eq!(app.init_message, Some(call("init-1", "initialize")));
    assert_eq!(
        server(&mut app, response("n-init", "{\"a\":1}"), "unused"),
        RelayStep::Write(response("init-1", "{\"a\":1}"))
    );
    assert_eq!(app.state, ProxyState::WaitingForClientInitialized);
    assert_eq!(
        client(&mut app, notification("notifications/initialized"), "unused"),
        RelayStep::Send(notification("notifications/initialized"), None)
    );
    assert_eq!(app.state, ProxyState::Connected);
}

#[test]
fn a_second_initialization_is_not_stored() {
    let mut app = connected();
    client(&mut app, request("init-2", "initialize"), "n");
    assert_eq!(app.init_message, Some(call("init-1", "initialize")));
    assert_eq!(app.state, ProxyState::Connected);
}

#[test]
fn relayed_call_and_answer() {
    let mut app = connected();
    assert_eq!(
        client(&mut app, request("call-1", "tools/call"), "n-1"),
        sent("n-1", "call-1", "tools/call")
    );
    assert_eq!(
        server(&mut app, response("n-1", "\"Hey!\""), "unused"),
        RelayStep::Write(response("call-1", "\"Hey!\""))
    );
    assert_eq!(server(&mut app, response("n-1", "\"Hey!\""), "unused"), RelayStep::Done);
}

#[test]
fn relayed_request_of_the_server() {
    let mut app = connected();
    assert_eq!(
        server(&mut app, request("s-1", "roots/list"), "n-1"),
        RelayStep::Write(request("n-1", "roots/list"))
    );
    assert_eq!(
        client(&mut app, response("n-1", "[]"), "unused"),
        RelayStep::Send(response("s-1", "[]"), None)
    );
    assert_eq!(client(&mut app, response("n-1", "[]"), "unused"), RelayStep::Done);
}

#[test]
fn relayed_notifications() {
    let mut app = connected();
    let message = notification("notifications/cancelled");
    assert_eq!(
        client(&mut app, message.clone(), "unused"),
        RelayStep::Send(message.clone(), None)
    );
    assert_eq!(server(&mut app, message.clone(), "unused"), RelayStep::Write(message));
}

#[test]
fn resources_are_answered_by_the_proxy() {
    for mut app in [waiting(), connected(), disconnected()] {
        assert_eq!(
            client(&mut app, request("r-1", "resources/list"), "unused"),
            RelayStep::Write(response("r-1", "{\"resources\":[]}"))
        );
        assert_eq!(app.in_buf, vec![]);
    }
}

#[test]
fn messages_while_disconnected() {
    let mut app = disconnected();
    assert_eq!(app.endpoint, None);
    assert_eq!(
        client(&mut app, request("p", "ping"), "unused"),
        RelayStep::Write(response("p", "{}"))
    );
    assert_eq!(client(&mut app, request("c", "tools/call"), "unused"), RelayStep::Done);
    assert_eq!(client(&mut app, notification("x"), "unused"), RelayStep::Done);
    assert_eq!(app.in_buf, vec![request("c", "tools/call"), notification("x")]);

    app.buf_mode = BufferMode::Fail;
    assert_eq!(
        client(&mut app, request("d", "tools/call"), "unused"),
        RelayStep::Write(refusal("d"))
    );
    assert_eq!(client(&mut app, notification("y"), "unused"), RelayStep::Done);
    assert_eq!(app.in_buf.len(), 2);
}

#[test]
fn messages_while_connected_are_handed_back() {
    let mut app = connected();
    assert_eq!(
        app.maybe_handle_message_while_disconnected(request("p", "ping")),
        Err(request("p", "ping"))
    );
}

#[test]
fn a_send_that_fails() {
    let mut app = connected();
    let now = Instant::now();
    client(&mut app, request("c", "tools/call"), "n");
    assert_eq!(
        app.send_request_to_sse(Some(call("c", "tools/call")), true, now),
        (true, RelayStep::Done)
    );
    assert_eq!(app.state, ProxyState::Connected);
    assert_eq!(
        app.send_request_to_sse(Some(call("c", "tools/call")), false, now),
        (false, RelayStep::Done)
    );
    assert_eq!(app.state, ProxyState::Disconnected);
    assert_eq!(app.in_buf, vec![request("c", "tools/call")]);
    assert_eq!(app.disconnected_since, Some(now));

    let mut app = connected();
    assert_eq!(app.send_request_to_sse(None, false, now), (false, RelayStep::Done));
    assert_eq!(app.state, ProxyState::Disconnected);
    assert_eq!(app.in_buf, vec![]);
}

#[test]
fn the_first_loss_counts() {
    let mut app = connected();
    let now = Instant::now();
    app.handle_fatal_transport_error(now);
    app.handle_fatal_transport_error(now + Duration::from_secs(5));
    assert_eq!(app.disconnected_since, Some(now));
}

#[test]
fn waiting_messages_are_replayed() {
    let mut app = disconnected();
    app.connected();
    app.in_buf = vec![
        request("1", "tools/call"),
        notification("notifications/progress"),
        request("2", "resources/list"),
        notification("notifications/initialized"),
        notification("progress"),
        response("3", "1"),
        notification("notifications/cancelled"),
    ];
    let ids: Vec<String> = (0..7).map(|i| format!("n-{}", i)).collect();
    let steps = app.process_buffered_messages_with(ids);
    assert_eq!(
        steps,
        vec![
            sent("n-0", "1", "tools/call"),
            RelayStep::Done,
            RelayStep::Write(response("2", "{\"resources\":[]}")),
            RelayStep::Send(notification("notifications/initialized"), None),
            RelayStep::Done,
            RelayStep::Send(response("3", "1"), None),
            RelayStep::Send(notification("notifications/cancelled"), None),
        ]
    );
    assert_eq!(app.in_buf, vec![]);
    assert_eq!(
        server(&mut app, response("n-0", "0"), "unused"),
        RelayStep::Write(response("1", "0"))
    );
}

#[test]
fn replayed_requests_get_fresh_identifiers() {
    let mut app = connected();
    app.in_buf = vec![request("1", "tools/call"), request("2", "tools/call")];
    let mut last = GeneratedId::generate();
    let steps = app.process_buffered_messages(&mut last);
    assert_eq!(steps.len(), 2);
    for (step, original) in steps.iter().zip(["1", "2"]) {
        match step {
            RelayStep::Send(JSONRPCMessage::Request(renamed), Some(request)) => {
                assert_eq!(renamed.id.to_string().len(), 36);
                assert_eq!(request.id, id(original));
            }
            other => panic!("unexpected: {:?}", other),
        }
    }
    assert_eq!(app.id_map.len(), 2);
}

#[test]
fn notifications_of_progress() {
    assert!(is_progress(&notice("progress")));
    assert!(is_progress(&notice("notifications/progress")));
    assert!(!is_progress(&notice("notifications/initialized")));
    let mut nested = notice("notifications/message");
    assert!(!is_progress(&nested));
    nested.params = Some(parsed("{\"inner\":{\"method\":\"progress\"}}"));
    assert!(!is_progress(&nested));
    let waiting = JSONRPCMessage::Notification(nested);
    assert_eq!(
        connected().replay_message(waiting.clone(), "unused".to_string()),
        RelayStep::Send(waiting, None)
    );
    let changed = notification("notifications/roots/list_changed");
    assert_eq!(
        connected().replay_message(changed.clone(), "unused".to_string()),
        RelayStep::Send(changed, None)
    );
}

#[test]
fn a_replay_that_fails() {
    let reply = reply_transport_error(&call("c", "tools/call"), "closed");
    assert_eq!(
        reply.to_value(),
        parsed("{\"jsonrpc\":\"2.0\",\"id\":\"c\",\"error\":{\"code\":-32011,\"message\":\"Transport error: closed\"}}")
    );
    assert_eq!(
        replay_settled(Some(call("c", "tools/call")), Err("closed".to_string())),
        RelayStep::Write(JSONRPCMessage::Response(reply))
    );
    assert_eq!(replay_settled(Some(call("c", "tools/call")), Ok(())), RelayStep::Done);
    assert_eq!(replay_settled(None, Err("closed".to_string())), RelayStep::Done);
    assert_eq!(replay_settled(None, Ok(())), RelayStep::Done);
}

#[test]
fn the_handshake_after_a_reconnection() {
    let mut app = disconnected();
    assert_eq!(
        app.initiate_handshake_with("n-2".to_string()),
        Ok(sent("n-2", "init-1", "initialize"))
    );
    assert_eq!(app.state, ProxyState::WaitingForServerInitHidden(id("init-1")));
    assert_eq!(
        server(&mut app, response("n-2", "{}"), "unused"),
        RelayStep::Complete(JSONRPCMessage::Notification(initialized_notification()))
    );
    assert_eq!(app.init_message, Some(call("init-1", "initialize")));
}

#[test]
fn the_end_of_the_handshake() {
    let mut app = disconnected();
    app.in_buf = vec![request("1", "tools/call"), notification("progress")];
    let steps = app.handshake_settled(true, Instant::now(), &mut GeneratedId::generate());
    assert_eq!(app.state, ProxyState::Connected);
    assert!(app.disconnected_since.is_none());
    assert_eq!(app.in_buf, vec![]);
    assert_eq!(steps.len(), 2);
    assert!(matches!(&steps[0], RelayStep::Send(_, Some(original)) if original.id == id("1")));
    assert_eq!(steps[1], RelayStep::Done);

    let mut app = connected();
    app.in_buf = vec![request("1", "tools/call")];
    let mut last = GeneratedId::generate();
    let before = last.to_text();
    assert_eq!(app.handshake_settled(false, Instant::now(), &mut last), vec![]);
    assert_eq!(last.to_text(), before);
    assert_eq!(app.state, ProxyState::Disconnected);
    assert_eq!(app.in_buf.len(), 1);
}

#[test]
fn failed_reconnections_are_counted() {
    let mut app = disconnected();
    assert_eq!(app.reconnect_failed(), 2);
    assert_eq!(app.reconnect_failed(), 4);
    assert_eq!(app.connect_tries, 2);
    app.connect_tries = u32::MAX;
    assert_eq!(app.reconnect_failed(), 8);
    assert_eq!(app.connect_tries, u32::MAX);
}

#[test]
fn a_handshake_without_a_stored_request() {
    let mut app = waiting();
    assert_eq!(
        app.initiate_post_reconnect_handshake(&mut GeneratedId::generate()),
        Err("Cannot perform reconnect handshake: init_message is missing".to_string())
    );
    assert_eq!(app.state, ProxyState::WaitingForClientInit);
}

#[test]
fn identifiers_come_from_the_generator() {
    let mut app = connected();
    let mut last = GeneratedId::generate();
    let mut ids = vec![];
    for name in ["c-1", "c-2"] {
        match app.process_client_request(request(name, "tools/call"), &mut last) {
            RelayStep::Send(JSONRPCMessage::Request(renamed), _) => {
                ids.push(renamed.id.to_string())
            }
            other => panic!("unexpected: {:?}", other),
        }
    }
    match app.process_server_message(request("s", "roots/list"), &mut last) {
        RelayStep::Write(JSONRPCMessage::Request(renamed)) => ids.push(renamed.id.to_string()),
        other => panic!("unexpected: {:?}", other),
    }
    match app.initiate_post_reconnect_handshake(&mut last) {
        Ok(RelayStep::Send(JSONRPCMessage::Request(renamed), _)) => {
            ids.push(renamed.id.to_string())
        }
        other => panic!("unexpected: {:?}", other),
    }
    assert_eq!(ids[3], last.to_text());
    assert!(ids.iter().all(|id| id.len() == 36));
    assert!(ids.windows(2).all(|pair| pair[0] < pair[1]));
    assert_eq!(app.id_map.len(), 4);
}

#[test]
fn the_proxy_gives_up() {
    let mut app = disconnected();
    app.max_disconnected_time = Some(10);
    app.in_buf = vec![request("1", "tools/call"), notification("x")];
    assert_eq!(app.give_up(10), None);
    assert_eq!(app.in_buf.len(), 2);
    assert_eq!(app.give_up(11), Some(vec![refusal("1")]));
    assert_eq!(app.in_buf, vec![]);
    assert_eq!(app.buf_mode, BufferMode::Fail);
    assert_eq!(app.give_up(11), Some(vec![]));
}

#[test]
fn relayed_protocol_version() {
    let mut app = waiting();
    app.override_protocol_version = Some("2024-11-05".to_string());
    client(&mut app, request("init-1", "initialize"), "n");
    assert_eq!(
        server(&mut app, response("n", "{\"protocolVersion\":\"2025-03-26\"}"), "unused"),
        RelayStep::Write(response("init-1", "{\"protocolVersion\":\"2024-11-05\"}"))
    );
}
