//! The event loop of the proxy as a state machine: an event changes the state of the proxy and
//! says what is to be done.

use crate::connection::{backoff, backoff_seconds};
use crate::endpoint::{endpoint_url, full_endpoint};
use crate::events::{
    action_views, Action, ActionView, AfterForward, AfterView, EventView, OnWriteError,
    ProxyEvent,
};
use crate::ids::{
    comes_before, fresh_id_is_unused, generate_id, is_uuid_text, not_later, spent, GeneratedId,
};
use crate::models::{
    elapsed_secs, id_text, id_views, message_views, now, reported_version, too_long,
    when_connected, AppState, AppView, BufferMode, IdView, JSONRPCMessage, JSONRPCRequest,
    MessageView, NumberOrString, ProxyState, RequestId, RequestView, ResponseView, SSEEvent,
    SseEventView, StateView,
};
use crate::replies::{
    disconnected_replies, disconnected_reply, initialized, initialized_notification, overridden,
    override_version, ping_reply, reply_all_disconnected, reply_disconnected, reply_ping,
    reply_send_error, send_error_reply,
};
use crate::text;
use std::time::Instant;
use vstd::prelude::*;

verus! {

/// How long calls are kept for a server that does not come back, in seconds.
pub const FAIL_FLUSH_SECONDS: u64 = 20;

/// What an event needs from outside the state: an identifier for a request, the time, and the
/// seconds since the disconnection.
pub struct Fresh {
    pub id: Seq<char>,
    pub now: Instant,
    pub waited: u64,
}

/// The server has announced its endpoint.
pub open spec fn past_endpoint(state: StateView) -> bool {
    match state {
        StateView::Connecting | StateView::Disconnected | StateView::WaitingForEndpoint => false,
        _ => true,
    }
}

/// The endpoint is known in every state that comes after its announcement.
pub open spec fn well_formed(app: AppView) -> bool {
    past_endpoint(app.state) ==> app.endpoint is Some
}

/// The proxy itself answers or keeps requests, as the server is not there.
pub open spec fn is_held_back(app: AppView) -> bool {
    app.state !is Connected && app.state !is WaitingForClientInit
}

/// The event needs no endpoint or the endpoint is known, and one more connection attempt can be
/// counted.
pub open spec fn accepts(app: AppView, event: EventView) -> bool {
    match event {
        EventView::SSEError(_) => app.connect_tries < u32::MAX,
        EventView::SSEEvent(SseEventView::Message(MessageView::Request(_))) => app.endpoint
            is Some,
        EventView::SSEEvent(SseEventView::Message(MessageView::Response(response))) => app.state
            == StateView::WaitingForServerInitHidden(response.id) ==> app.endpoint is Some,
        EventView::IOEvent(MessageView::Request(request)) => is_held_back(app)
            || app.endpoint is Some,
        EventView::IOEvent(_) => app.endpoint is Some,
        _ => true,
    }
}

/// The state and the actions while the event stream is being opened.
pub open spec fn connecting(app: AppView) -> (AppView, Seq<ActionView>) {
    (
        AppView {
            state: StateView::WaitingForEndpoint,
            endpoint: None,
            buf_mode: BufferMode::Store,
            ..app
        },
        seq![ActionView::Connect(app.url)],
    )
}

/// The buffered messages go back to the queue.
pub open spec fn flushed(app: AppView) -> (AppView, Seq<ActionView>) {
    (
        AppView { in_buf: Seq::empty(), ..app },
        app.in_buf.map_values(|m: MessageView| ActionView::Enqueue(EventView::IOEvent(m))),
    )
}

/// The server announced its endpoint: the initialize request is sent again where there is one,
/// or the one of the client is waited for.
pub open spec fn endpoint_known(app: AppView, endpoint: Seq<char>) -> (AppView, Seq<ActionView>) {
    if app.state is WaitingForEndpoint {
        let endpoint = full_endpoint(app.url, endpoint);
        let app = AppView { endpoint: Some(endpoint), ..app };
        match app.init_message {
            Some(message) => (
                app,
                seq![
                    ActionView::Forward(
                        MessageView::Request(message),
                        endpoint,
                        AfterView::InitResent(message.id),
                    ),
                ],
            ),
            None => (
                AppView { state: StateView::WaitingForClientInit, ..app },
                seq![ActionView::StartReader],
            ),
        }
    } else {
        (app, Seq::empty())
    }
}

/// A message of the server that is passed on to the client: a request under a fresh identifier,
/// a response under the identifier that the client gave, a notification as it is. A response
/// under an unknown identifier is dropped.
pub open spec fn server_message(app: AppView, message: MessageView, fresh_id: Seq<char>) -> (
    AppView,
    Seq<ActionView>,
) {
    match message {
        MessageView::Request(request) => (
            AppView { id_map: app.id_map.insert(fresh_id, request.id), ..app },
            seq![
                ActionView::Write(
                    MessageView::Request(
                        RequestView { id: IdView::String(fresh_id), ..request },
                    ),
                    OnWriteError::Log,
                ),
            ],
        ),
        MessageView::Response(response) => if app.id_map.contains_key(id_text(response.id)) {
            (
                AppView { id_map: app.id_map.remove(id_text(response.id)), ..app },
                seq![
                    ActionView::Write(
                        MessageView::Response(
                            ResponseView { id: app.id_map[id_text(response.id)], ..response },
                        ),
                        OnWriteError::Log,
                    ),
                ],
            )
        } else {
            (app, Seq::empty())
        },
        MessageView::Notification(_) => (
            app,
            seq![ActionView::Write(message, OnWriteError::Log)],
        ),
    }
}

/// A message of the server. The answer to the initialize request of the client goes to the
/// client, and the client is waited for; the answer to one that was sent again ends the
/// handshake without the client.
pub open spec fn from_server(app: AppView, message: MessageView, fresh_id: Seq<char>) -> (
    AppView,
    Seq<ActionView>,
) {
    match message {
        MessageView::Response(response) if app.state == StateView::WaitingForServerInit(
            response.id,
        ) => (
            AppView { state: StateView::WaitingForClientInitialized, ..app },
            seq![
                ActionView::Write(
                    MessageView::Response(overridden(response, reported_version(app))),
                    OnWriteError::Stop,
                ),
            ],
        ),
        MessageView::Response(response) if app.state == StateView::WaitingForServerInitHidden(
            response.id,
        ) => (
            app,
            seq![
                ActionView::Forward(
                    MessageView::Notification(initialized()),
                    app.endpoint->0,
                    AfterView::Handshake,
                ),
            ],
        ),
        _ => server_message(app, message, fresh_id),
    }
}

/// A request of the client while the server is not there: a ping is answered, a tool call is
/// kept, and anything else is refused.
pub open spec fn held_back(app: AppView, request: RequestView) -> (AppView, Seq<ActionView>) {
    if request.method == "ping"@ {
        (
            app,
            seq![
                ActionView::Write(
                    MessageView::Response(ping_reply(request.id)),
                    OnWriteError::Stop,
                ),
            ],
        )
    } else if request.method == "tools/call"@ {
        (
            AppView { in_buf: app.in_buf.push(MessageView::Request(request)), ..app },
            Seq::empty(),
        )
    } else {
        (
            app,
            seq![
                ActionView::Write(
                    MessageView::Response(disconnected_reply(request.id)),
                    OnWriteError::Stop,
                ),
            ],
        )
    }
}

/// A message of the client that is passed on to the server: a request under a fresh identifier,
/// a response under the identifier that the server gave, a notification as it is. A response
/// under an unknown identifier is dropped.
pub open spec fn client_message(app: AppView, message: MessageView, fresh_id: Seq<char>) -> (
    AppView,
    Seq<ActionView>,
) {
    let endpoint = app.endpoint->0;
    match message {
        MessageView::Request(request) => (
            app,
            seq![
                ActionView::Forward(
                    MessageView::Request(
                        RequestView { id: IdView::String(fresh_id), ..request },
                    ),
                    endpoint,
                    AfterView::Request { original_id: request.id, new_id: fresh_id },
                ),
            ],
        ),
        MessageView::Response(response) => if app.id_map.contains_key(id_text(response.id)) {
            (
                AppView { id_map: app.id_map.remove(id_text(response.id)), ..app },
                seq![
                    ActionView::Forward(
                        MessageView::Response(
                            ResponseView { id: app.id_map[id_text(response.id)], ..response },
                        ),
                        endpoint,
                        AfterView::Nothing,
                    ),
                ],
            )
        } else {
            (app, Seq::empty())
        },
        MessageView::Notification(_) => (
            app,
            seq![ActionView::Forward(message, endpoint, AfterView::Nothing)],
        ),
    }
}

/// A message of the client. Its initialize request and the notification that ends the handshake
/// are passed on as they are; other requests are held back while the server is not there.
pub open spec fn from_client(app: AppView, message: MessageView, fresh_id: Seq<char>) -> (
    AppView,
    Seq<ActionView>,
) {
    let endpoint = app.endpoint->0;
    match message {
        MessageView::Request(request) if app.state is WaitingForClientInit && request.method
            == "initialize"@ => (
            app,
            seq![ActionView::Forward(message, endpoint, AfterView::ClientInit(request))],
        ),
        MessageView::Notification(notification) if notification.method
            == "notifications/initialized"@ => (
            app,
            seq![ActionView::Forward(message, endpoint, AfterView::Handshake)],
        ),
        MessageView::Request(request) if is_held_back(app) => held_back(app, request),
        _ => client_message(app, message, fresh_id),
    }
}

/// The connection is lost. The time of the disconnection stays the one of the first loss.
pub open spec fn lost(app: AppView, now: Instant, waited: u64) -> (AppView, Seq<ActionView>) {
    let after = AppView {
        state: StateView::Disconnected,
        endpoint: None,
        disconnected_since: Some(
            match app.disconnected_since {
                Some(since) => since,
                None => now,
            },
        ),
        connect_tries: (app.connect_tries + 1) as u32,
        ..app
    };
    let flush = ActionView::Schedule(EventView::FailFlush, FAIL_FLUSH_SECONDS);
    let next = if too_long(after, waited) {
        ActionView::Stop(Some("Reconnect timeout exceeded"@))
    } else {
        ActionView::Schedule(EventView::Reconnect, backoff(app.connect_tries as nat) as u64)
    };
    (
        after,
        if app.connect_tries == 0 {
            seq![flush, next]
        } else {
            seq![next]
        },
    )
}

/// The refusals of the requests among the messages, in their order.
pub open spec fn refusals(messages: Seq<MessageView>) -> Seq<ActionView> {
    disconnected_replies(messages).map_values(
        |m: MessageView| ActionView::Write(m, OnWriteError::Log),
    )
}

/// No message is kept any more, and no answer is expected.
pub open spec fn abandoned(app: AppView) -> AppView {
    AppView {
        in_buf: Seq::empty(),
        id_map: Map::empty(),
        buf_mode: BufferMode::Fail,
        ..app
    }
}

/// The server did not come back in time: the kept calls are refused.
pub open spec fn fail_flushed(app: AppView) -> (AppView, Seq<ActionView>) {
    if app.state is Disconnected {
        (abandoned(app), refusals(app.in_buf))
    } else {
        (app, Seq::empty())
    }
}

/// The state after an event, and what is to be done.
pub open spec fn transition(app: AppView, event: EventView, fresh: Fresh) -> (
    AppView,
    Seq<ActionView>,
) {
    match event {
        EventView::ConnectToSSE | EventView::Reconnect => connecting(app),
        EventView::FlushInBuffer => flushed(app),
        EventView::SSEEvent(SseEventView::Endpoint(endpoint)) => endpoint_known(app, endpoint),
        EventView::SSEEvent(SseEventView::Message(message)) => from_server(app, message, fresh.id),
        EventView::SSEEvent(SseEventView::Other(_, _)) => (app, Seq::empty()),
        EventView::SSEError(_) => lost(app, fresh.now, fresh.waited),
        EventView::IOEvent(message) => from_client(app, message, fresh.id),
        EventView::IOError(error) => (
            app,
            seq![ActionView::Stop(Some("IO error: "@ + error))],
        ),
        EventView::FailFlush => fail_flushed(app),
        EventView::Shutdown(_) => (app, seq![ActionView::Stop(None)]),
    }
}

/// The state after a message was forwarded, or was not, and what is to be done.
pub open spec fn settled(app: AppView, after: AfterView, outcome: Result<(), Seq<char>>) -> (
    AppView,
    Seq<ActionView>,
) {
    match (after, outcome) {
        (AfterView::InitResent(id), Ok(_)) => (
            AppView { state: StateView::WaitingForServerInitHidden(id), ..app },
            Seq::empty(),
        ),
        (AfterView::ClientInit(request), Ok(_)) => (
            AppView {
                init_message: Some(request),
                state: StateView::WaitingForServerInit(request.id),
                ..app
            },
            Seq::empty(),
        ),
        (AfterView::Handshake, Ok(_)) => (
            when_connected(app),
            seq![ActionView::Enqueue(EventView::FlushInBuffer)],
        ),
        (AfterView::Request { original_id, new_id }, Ok(_)) => (
            AppView { id_map: app.id_map.insert(new_id, original_id), ..app },
            Seq::empty(),
        ),
        (AfterView::Request { original_id, new_id }, Err(error)) => (
            app,
            seq![
                ActionView::Write(
                    MessageView::Response(send_error_reply(original_id, error)),
                    OnWriteError::Log,
                ),
            ],
        ),
        (AfterView::Nothing, _) => (app, Seq::empty()),
        (_, Err(error)) => (app, seq![ActionView::Stop(Some(error))]),
    }
}

/// Replacing an original identifier by its model commutes with the changes of the map.
proof fn lemma_id_views(ids: Map<Seq<char>, RequestId>, key: Seq<char>, id: RequestId)
    ensures
        id_views(ids.insert(key, id)) == id_views(ids).insert(key, id@),
        id_views(ids.remove(key)) == id_views(ids).remove(key),
        id_views(ids).contains_key(key) == ids.contains_key(key),
        ids.contains_key(key) ==> id_views(ids)[key] == ids[key]@,
{
    assert(id_views(ids.insert(key, id)) =~= id_views(ids).insert(key, id@));
    assert(id_views(ids.remove(key)) =~= id_views(ids).remove(key));
}

/// The proxy itself answers or keeps requests, as the server is not there.
fn holds_back(state: &ProxyState) -> (r: bool)
    ensures
        r == (state@ !is Connected && state@ !is WaitingForClientInit),
{
    match state {
        ProxyState::Connected | ProxyState::WaitingForClientInit => false,
        _ => true,
    }
}

/// One action.
fn just(action: Action) -> (r: Vec<Action>)
    ensures
        action_views(r@) == seq![action@],
{
    let mut r: Vec<Action> = Vec::new();
    r.push(action);
    assert(action_views(r@) =~= seq![action@]);
    r
}

/// No action.
fn nothing() -> (r: Vec<Action>)
    ensures
        action_views(r@) == Seq::<ActionView>::empty(),
{
    let r: Vec<Action> = Vec::new();
    assert(action_views(r@) =~= Seq::<ActionView>::empty());
    r
}

impl AppState {
    /// The event can be handled.
    pub fn can_handle(&self, event: &ProxyEvent) -> (r: bool)
        ensures
            r == accepts(self@, event@),
    {
        match event {
            ProxyEvent::SSEError(_) => self.connect_tries < u32::MAX,
            ProxyEvent::SSEEvent(SSEEvent::Message(JSONRPCMessage::Request(_))) => self.endpoint
                .is_some(),
            ProxyEvent::SSEEvent(SSEEvent::Message(JSONRPCMessage::Response(response))) => {
                match &self.state {
                    ProxyState::WaitingForServerInitHidden(id) => !id.same(&response.id)
                        || self.endpoint.is_some(),
                    _ => true,
                }
            },
            ProxyEvent::IOEvent(JSONRPCMessage::Request(_)) => holds_back(&self.state)
                || self.endpoint.is_some(),
            ProxyEvent::IOEvent(_) => self.endpoint.is_some(),
            _ => true,
        }
    }

    /// The identifier that stands behind a generated one, which is forgotten.
    pub fn take_original_id(&mut self, id: &RequestId) -> (r: Option<RequestId>)
        ensures
            final(self)@ == (AppView {
                id_map: old(self)@.id_map.remove(id_text(id@)),
                ..old(self)@
            }),
            match r {
                Some(original) => old(self)@.id_map.contains_pair(id_text(id@), original@),
                None => !old(self)@.id_map.contains_key(id_text(id@)),
            },
    {
        let key = id.to_string();
        let original = match self.id_map.get(key.as_str()) {
            Some(original) => Some(original.clone()),
            None => None,
        };
        proof {
            lemma_id_views(self.id_map@, key@, *id);
        }
        self.id_map.remove(key.as_str());
        original
    }

    /// The original identifier is remembered for the generated one.
    pub fn remember_id(&mut self, new_id: String, original_id: RequestId)
        ensures
            final(self)@ == (AppView {
                id_map: old(self)@.id_map.insert(new_id@, original_id@),
                ..old(self)@
            }),
            forall|last: Seq<char>| #[trigger]
                spent(old(self)@, last) && not_later(new_id@, last) ==> spent(final(self)@, last),
    {
        proof {
            lemma_id_views(self.id_map@, new_id@, original_id);
        }
        self.id_map.insert(new_id, original_id);
    }

    /// Connect to the SSE server
    pub fn connect_to_sse(&mut self) -> (r: Vec<Action>)
        ensures
            (final(self)@, action_views(r@)) == connecting(old(self)@),
    {
        self.state = ProxyState::WaitingForEndpoint;
        self.endpoint = None;
        self.buf_mode = BufferMode::Store;
        just(Action::Connect(self.url.clone()))
    }

    /// Handle an SSE event
    pub fn handle_sse_event(&mut self, message: JSONRPCMessage, fresh_id: String) -> (r: Vec<
        Action,
    >)
        requires
            message is Request ==> old(self).endpoint is Some,
        ensures
            (final(self)@, action_views(r@)) == server_message(old(self)@, message@, fresh_id@),
    {
        match message {
            JSONRPCMessage::Request(request) => {
                let mut request = request;
                self.remember_id(fresh_id.clone(), request.id);
                request.id = NumberOrString::String(text::shared(fresh_id));
                just(Action::Write(JSONRPCMessage::Request(request), OnWriteError::Log))
            },
            JSONRPCMessage::Response(response) => {
                let mut response = response;
                let ghost before = self@;
                match self.take_original_id(&response.id) {
                    Some(original_id) => {
                        response.id = original_id;
                        just(Action::Write(JSONRPCMessage::Response(response), OnWriteError::Log))
                    },
                    None => {
                        assert(before.id_map.remove(id_text(response.id@)) =~= before.id_map);
                        nothing()
                    },
                }
            },
            JSONRPCMessage::Notification(notification) => just(
                Action::Write(JSONRPCMessage::Notification(notification), OnWriteError::Log),
            ),
        }
    }

    /// Handle an IO event
    pub fn handle_io_event(&mut self, message: JSONRPCMessage, fresh_id: String) -> (r: Vec<
        Action,
    >)
        requires
            old(self).endpoint is Some,
        ensures
            (final(self)@, action_views(r@)) == client_message(old(self)@, message@, fresh_id@),
    {
        let endpoint = self.endpoint.clone().unwrap();
        match message {
            JSONRPCMessage::Request(request) => {
                let mut request = request;
                let after = AfterForward::Request {
                    original_id: request.id,
                    new_id: fresh_id.clone(),
                };
                request.id = NumberOrString::String(text::shared(fresh_id));
                just(Action::Forward(JSONRPCMessage::Request(request), endpoint, after))
            },
            JSONRPCMessage::Response(response) => {
                let mut response = response;
                let ghost before = self@;
                match self.take_original_id(&response.id) {
                    Some(original_id) => {
                        response.id = original_id;
                        just(
                            Action::Forward(
                                JSONRPCMessage::Response(response),
                                endpoint,
                                AfterForward::Nothing,
                            ),
                        )
                    },
                    None => {
                        assert(before.id_map.remove(id_text(response.id@)) =~= before.id_map);
                        nothing()
                    },
                }
            },
            JSONRPCMessage::Notification(notification) => just(
                Action::Forward(
                    JSONRPCMessage::Notification(notification),
                    endpoint,
                    AfterForward::Nothing,
                ),
            ),
        }
    }

    /// The buffered messages go back to the queue.
    pub fn flush_in_buffer(&mut self) -> (r: Vec<Action>)
        ensures
            (final(self)@, action_views(r@)) == flushed(old(self)@),
    {
        let ghost before = self@;
        let mut messages: Vec<JSONRPCMessage> = Vec::new();
        std::mem::swap(&mut self.in_buf, &mut messages);
        assert(self@.in_buf =~= Seq::<MessageView>::empty());
        let mut actions: Vec<Action> = Vec::new();
        let ghost all = messages@;
        assert(before.in_buf == message_views(all));
        let ghost expected = flushed(before).1;
        for message in it: messages
            invariant
                it.seq() == all,
                expected == message_views(all).map_values(
                    |m: MessageView| ActionView::Enqueue(EventView::IOEvent(m)),
                ),
                actions@.len() == it.index(),
                action_views(actions@) =~= expected.take(it.index() as int),
        {
            actions.push(Action::Enqueue(ProxyEvent::IOEvent(message)));
        }
        assert(expected.take(all.len() as int) =~= expected);
        actions
    }

    /// The server announced its endpoint.
    pub fn announce_endpoint(&mut self, endpoint: String) -> (r: Vec<Action>)
        ensures
            (final(self)@, action_views(r@)) == endpoint_known(old(self)@, endpoint@),
    {
        match &self.state {
            ProxyState::WaitingForEndpoint => {},
            _ => {
                return nothing();
            },
        }
        let full = endpoint_url(self.url.as_str(), endpoint.as_str());
        self.endpoint = Some(full.clone());
        match &self.init_message {
            Some(message) => just(
                Action::Forward(
                    JSONRPCMessage::Request(message.clone()),
                    full,
                    AfterForward::InitResent(message.id.clone()),
                ),
            ),
            None => {
                self.state = ProxyState::WaitingForClientInit;
                just(Action::StartReader)
            },
        }
    }

    /// A request of the client came while the server was not there.
    pub fn hold_back(&mut self, request: JSONRPCRequest) -> (r: Vec<Action>)
        ensures
            (final(self)@, action_views(r@)) == held_back(old(self)@, request@),
    {
        if text::same(request.method.as_str(), "ping") {
            just(
                Action::Write(
                    JSONRPCMessage::Response(reply_ping(&request.id)),
                    OnWriteError::Stop,
                ),
            )
        } else if text::same(request.method.as_str(), "tools/call") {
            let ghost before = self@;
            let message = JSONRPCMessage::Request(request);
            self.in_buf.push(message);
            assert(self@.in_buf =~= before.in_buf.push(message@));
            nothing()
        } else {
            just(
                Action::Write(
                    JSONRPCMessage::Response(reply_disconnected(&request.id)),
                    OnWriteError::Stop,
                ),
            )
        }
    }

    /// A message of the server.
    pub fn receive_from_server(&mut self, message: JSONRPCMessage, fresh_id: String) -> (r: Vec<
        Action,
    >)
        requires
            accepts(old(self)@, EventView::SSEEvent(SseEventView::Message(message@))),
        ensures
            (final(self)@, action_views(r@)) == from_server(old(self)@, message@, fresh_id@),
    {
        if let JSONRPCMessage::Response(response) = message {
            match &self.state {
                ProxyState::WaitingForServerInit(id) if id.same(&response.id) => {
                    self.state = ProxyState::WaitingForClientInitialized;
                    let version = self.reported_protocol_version();
                    let response = override_version(response, &version);
                    just(Action::Write(JSONRPCMessage::Response(response), OnWriteError::Stop))
                },
                ProxyState::WaitingForServerInitHidden(id) if id.same(&response.id) => {
                    let endpoint = self.endpoint.clone().unwrap();
                    just(
                        Action::Forward(
                            JSONRPCMessage::Notification(initialized_notification()),
                            endpoint,
                            AfterForward::Handshake,
                        ),
                    )
                },
                _ => self.handle_sse_event(JSONRPCMessage::Response(response), fresh_id),
            }
        } else {
            self.handle_sse_event(message, fresh_id)
        }
    }

    /// A message of the client.
    pub fn receive_from_client(&mut self, message: JSONRPCMessage, fresh_id: String) -> (r: Vec<
        Action,
    >)
        requires
            accepts(old(self)@, EventView::IOEvent(message@)),
        ensures
            (final(self)@, action_views(r@)) == from_client(old(self)@, message@, fresh_id@),
    {
        match message {
            JSONRPCMessage::Request(request) => {
                let waiting = match &self.state {
                    ProxyState::WaitingForClientInit => true,
                    _ => false,
                };
                if waiting && text::same(request.method.as_str(), "initialize") {
                    let endpoint = self.endpoint.clone().unwrap();
                    let after = AfterForward::ClientInit(request.clone());
                    just(Action::Forward(JSONRPCMessage::Request(request), endpoint, after))
                } else if holds_back(&self.state) {
                    self.hold_back(request)
                } else {
                    self.handle_io_event(JSONRPCMessage::Request(request), fresh_id)
                }
            },
            JSONRPCMessage::Notification(notification) => {
                if text::same(notification.method.as_str(), "notifications/initialized") {
                    let endpoint = self.endpoint.clone().unwrap();
                    just(
                        Action::Forward(
                            JSONRPCMessage::Notification(notification),
                            endpoint,
                            AfterForward::Handshake,
                        ),
                    )
                } else {
                    self.handle_io_event(JSONRPCMessage::Notification(notification), fresh_id)
                }
            },
            JSONRPCMessage::Response(response) => self.handle_io_event(
                JSONRPCMessage::Response(response),
                fresh_id,
            ),
        }
    }

    /// The connection is lost.
    pub fn lose_connection(&mut self, now: Instant, waited: u64) -> (r: Vec<Action>)
        requires
            old(self).connect_tries < u32::MAX,
        ensures
            (final(self)@, action_views(r@)) == lost(old(self)@, now, waited),
    {
        let mut actions: Vec<Action> = Vec::new();
        if self.connect_tries == 0 {
            actions.push(Action::Schedule(ProxyEvent::FailFlush, FAIL_FLUSH_SECONDS));
        }
        self.state = ProxyState::Disconnected;
        self.endpoint = None;
        if self.disconnected_since.is_none() {
            self.disconnected_since = Some(now);
        }
        let seconds: u64 = backoff_seconds(self.connect_tries);
        self.connect_tries = self.connect_tries + 1;
        if self.waited_too_long(waited) {
            actions.push(Action::Stop(Err("Reconnect timeout exceeded".to_owned())));
        } else {
            actions.push(Action::Schedule(ProxyEvent::Reconnect, seconds));
        }
        assert(action_views(actions@) =~= lost(old(self)@, now, waited).1);
        actions
    }

    /// Sends error responses for all buffered messages
    pub fn flush_buffer_with_errors(&mut self) -> (r: Vec<JSONRPCMessage>)
        ensures
            final(self)@ == abandoned(old(self)@),
            message_views(r@) == disconnected_replies(old(self)@.in_buf),
    {
        let mut messages: Vec<JSONRPCMessage> = Vec::new();
        std::mem::swap(&mut self.in_buf, &mut messages);
        self.buf_mode = BufferMode::Fail;
        self.id_map.clear();
        assert(self@.in_buf =~= Seq::<MessageView>::empty());
        assert(self@.id_map =~= Map::<Seq<char>, IdView>::empty());
        reply_all_disconnected(&messages)
    }

    /// The server did not come back in time.
    pub fn fail_flush(&mut self) -> (r: Vec<Action>)
        ensures
            (final(self)@, action_views(r@)) == fail_flushed(old(self)@),
    {
        match &self.state {
            ProxyState::Disconnected => {},
            _ => {
                return nothing();
            },
        }
        let ghost before = self@;
        let replies = self.flush_buffer_with_errors();
        let ghost all = replies@;
        let ghost expected = refusals(before.in_buf);
        let mut actions: Vec<Action> = Vec::new();
        for reply in it: replies
            invariant
                it.seq() == all,
                expected == message_views(all).map_values(
                    |m: MessageView| ActionView::Write(m, OnWriteError::Log),
                ),
                actions@.len() == it.index(),
                action_views(actions@) =~= expected.take(it.index() as int),
        {
            actions.push(Action::Write(reply, OnWriteError::Log));
        }
        assert(expected.take(all.len() as int) =~= expected);
        actions
    }

    /// The state after an event, and what is to be done, given an identifier for a request, the
    /// time, and the seconds since the disconnection.
    pub fn handle_event_with(
        &mut self,
        event: ProxyEvent,
        fresh_id: String,
        now: Instant,
        waited: u64,
    ) -> (r: Vec<Action>)
        requires
            accepts(old(self)@, event@),
        ensures
            (final(self)@, action_views(r@)) == transition(
                old(self)@,
                event@,
                Fresh { id: fresh_id@, now, waited },
            ),
    {
        match event {
            ProxyEvent::ConnectToSSE | ProxyEvent::Reconnect => self.connect_to_sse(),
            ProxyEvent::FlushInBuffer => self.flush_in_buffer(),
            ProxyEvent::SSEEvent(SSEEvent::Endpoint(endpoint)) => self.announce_endpoint(endpoint),
            ProxyEvent::SSEEvent(SSEEvent::Message(message)) => self.receive_from_server(
                message,
                fresh_id,
            ),
            ProxyEvent::SSEEvent(SSEEvent::Other(_, _)) => nothing(),
            ProxyEvent::SSEError(_) => self.lose_connection(now, waited),
            ProxyEvent::IOEvent(message) => self.receive_from_client(message, fresh_id),
            ProxyEvent::IOError(error) => just(
                Action::Stop(Err("IO error: ".to_owned().concat(error.as_str()))),
            ),
            ProxyEvent::FailFlush => self.fail_flush(),
            ProxyEvent::Shutdown(_) => just(Action::Stop(Ok(()))),
        }
    }

    /// The state after an event, and what is to be done. The identifier for a request is the next
    /// one behind the last. The time is whatever the clock says; without a disconnection no time
    /// has passed since.
    pub fn handle_event(&mut self, event: ProxyEvent, last: &mut GeneratedId) -> (r: Vec<Action>)
        requires
            accepts(old(self)@, event@),
        ensures
            is_uuid_text(final(last)@),
            comes_before(old(last)@, final(last)@),
            exists|fresh: Fresh|
                fresh.id == final(last)@ && (old(self)@.disconnected_since is None ==> fresh.waited
                    == 0) && (final(self)@, action_views(r@)) == #[trigger] transition(
                    old(self)@,
                    event@,
                    fresh,
                ),
            spent(old(self)@, old(last)@) ==> !old(self)@.id_map.contains_key(final(last)@)
                && spent(final(self)@, final(last)@),
    {
        let fresh_id = generate_id(last);
        proof {
            if spent(self@, old(last)@) {
                fresh_id_is_unused(self@, old(last)@, last@);
            }
        }
        let waited: u64 = match &self.disconnected_since {
            Some(since) => elapsed_secs(since),
            None => 0,
        };
        let now = now();
        let ghost fresh = Fresh { id: fresh_id@, now, waited };
        let ghost before = self@;
        let ghost seen = event@;
        let actions = self.handle_event_with(event, fresh_id, now, waited);
        assert((self@, action_views(actions@)) == transition(before, seen, fresh));
        actions
    }

    /// The state after a message was forwarded, or was not, and what is to be done.
    pub fn forward_settled(&mut self, after: AfterForward, outcome: Result<(), String>) -> (r:
        Vec<Action>)
        ensures
            (final(self)@, action_views(r@)) == settled(
                old(self)@,
                after@,
                match outcome {
                    Ok(_) => Ok(()),
                    Err(error) => Err(error@),
                },
            ),
            forall|last: Seq<char>| #[trigger]
                spent(old(self)@, last) && (after@ matches AfterView::Request { new_id, .. }
                    ==> not_later(new_id, last)) ==> spent(final(self)@, last),
    {
        match (after, outcome) {
            (AfterForward::InitResent(id), Ok(_)) => {
                self.state = ProxyState::WaitingForServerInitHidden(id);
                nothing()
            },
            (AfterForward::ClientInit(request), Ok(_)) => {
                self.state = ProxyState::WaitingForServerInit(request.id.clone());
                self.init_message = Some(request);
                nothing()
            },
            (AfterForward::Handshake, Ok(_)) => {
                self.connected();
                just(Action::Enqueue(ProxyEvent::FlushInBuffer))
            },
            (AfterForward::Request { original_id, new_id }, Ok(_)) => {
                self.remember_id(new_id, original_id);
                nothing()
            },
            (AfterForward::Request { original_id, new_id: _ }, Err(error)) => just(
                Action::Write(
                    JSONRPCMessage::Response(reply_send_error(&original_id, error)),
                    OnWriteError::Log,
                ),
            ),
            (AfterForward::Nothing, _) => nothing(),
            (_, Err(error)) => just(Action::Stop(Err(error))),
        }
    }
}

} // verus!
